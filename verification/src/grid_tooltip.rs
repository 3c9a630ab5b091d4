//! Texts of the tooltips of the resource grid: what a hovered PHY event, SSB or PRB
//! shows, in the symbol view and in the slot view.

use vstd::prelude::*;
use crate::format::{dec_digits, decimal};
use crate::model::PHYChannelType;
use crate::resource_blocks::{channel_resource, CachedPHYEvent, ResourceType, SsbConfig};
use crate::text::join;

verus! {

/// Decimal text of a number.
pub open spec fn dec(n: int) -> Seq<char> {
    dec_digits(n as nat)
}

/// Appends the decimal digits of `n`.
fn push_num(out: &mut String, n: u64)
    ensures
        final(out)@ == old(out)@ + dec(n as int),
{
    let d = decimal(n);
    out.append(d.as_str());
}

/// Name of a channel in a tooltip.
pub open spec fn spec_channel_name(c: PHYChannelType) -> Seq<char> {
    match c {
        PHYChannelType::PDSCH => "PDSCH (DL Data)"@,
        PHYChannelType::PUSCH => "PUSCH (UL Data)"@,
        PHYChannelType::PUCCH => "PUCCH (UL Control)"@,
        PHYChannelType::PRACH => "PRACH (Random Access)"@,
        _ => "Unknown"@,
    }
}

/// Name of a channel in a tooltip.
pub fn channel_name(c: PHYChannelType) -> (r: &'static str)
    ensures
        r@ == spec_channel_name(c),
{
    match c {
        PHYChannelType::PDSCH => "PDSCH (DL Data)",
        PHYChannelType::PUSCH => "PUSCH (UL Data)",
        PHYChannelType::PUCCH => "PUCCH (UL Control)",
        PHYChannelType::PRACH => "PRACH (Random Access)",
        _ => "Unknown",
    }
}

/// Name of a resource in a tooltip.
pub open spec fn spec_resource_name(rt: ResourceType) -> Seq<char> {
    match rt {
        ResourceType::Pdsch => "PDSCH"@,
        ResourceType::Pusch => "PUSCH"@,
        ResourceType::Pucch => "PUCCH"@,
        ResourceType::Prach => "PRACH"@,
        ResourceType::Pdcch => "PDCCH"@,
        ResourceType::Ssb => "SSB"@,
        ResourceType::Dmrs => "DMRS"@,
        _ => "?"@,
    }
}

/// Name of a resource in a tooltip.
pub fn resource_name(rt: ResourceType) -> (r: &'static str)
    ensures
        r@ == spec_resource_name(rt),
{
    match rt {
        ResourceType::Pdsch => "PDSCH",
        ResourceType::Pusch => "PUSCH",
        ResourceType::Pucch => "PUCCH",
        ResourceType::Prach => "PRACH",
        ResourceType::Pdcch => "PDCCH",
        ResourceType::Ssb => "SSB",
        ResourceType::Dmrs => "DMRS",
        _ => "?",
    }
}

/// Position of the first run at or after `i` whose resource is one that `keep` accepts.
pub open spec fn first_run(
    summary: Seq<(ResourceType, usize, usize)>,
    keep: spec_fn(ResourceType) -> bool,
    i: int,
) -> Option<int>
    decreases summary.len() - i,
{
    if i < 0 || i >= summary.len() {
        None
    } else if keep(summary[i].0) {
        Some(i)
    } else {
        first_run(summary, keep, i + 1)
    }
}

/// The `Symbols: a-b` line of the first run that `keep` accepts, after a line break;
/// nothing when there is none.
pub open spec fn symbols_line(
    summary: Seq<(ResourceType, usize, usize)>,
    keep: spec_fn(ResourceType) -> bool,
) -> Seq<char> {
    match first_run(summary, keep, 0) {
        Some(k) => "\n"@ + "Symbols: "@ + dec(summary[k].1 as int) + "-"@ + dec(summary[k].2 as int),
        None => Seq::empty(),
    }
}

/// The resource of the runs that a PHY event's tooltip reports.
pub open spec fn matches_channel(c: PHYChannelType) -> spec_fn(ResourceType) -> bool {
    |rt: ResourceType| channel_resource(c) == Some(rt)
}

/// The SSB runs.
pub open spec fn is_ssb() -> spec_fn(ResourceType) -> bool {
    |rt: ResourceType| rt == ResourceType::Ssb
}

/// Symbol view of a PHY event: its channel, frame, subframe and slot, PRBs and symbols.
pub open spec fn spec_event_symbol_tooltip(e: CachedPHYEvent, slots_per_subframe: u8) -> Seq<char> {
    spec_channel_name(e.channel_type) + "\n"@ + "Frame "@ + dec(e.frame as int) + " | SubFrame "@
        + dec((e.slot / slots_per_subframe) as int) + " | Slot "@ + dec((e.slot % slots_per_subframe) as int) + "\n"@
        + "PRB: "@ + dec(e.prb_start as int) + "-"@ + dec(e.prb_start + e.prb_length - 1) + " "@
        + "\n"@ + "Symbols: "@ + dec(e.symb_start as int) + "-"@ + dec(e.symb_start + e.symb_length - 1)
}

/// Symbol view of a PHY event (see `spec_event_symbol_tooltip`).
pub fn event_symbol_tooltip(e: &CachedPHYEvent, slots_per_subframe: u8) -> (r: String)
    requires
        slots_per_subframe > 0,
        1 <= e.prb_start + e.prb_length <= u16::MAX,
        1 <= e.symb_start + e.symb_length <= u8::MAX,
    ensures
        r@ == spec_event_symbol_tooltip(*e, slots_per_subframe),
{
    let mut out = String::from_str(channel_name(e.channel_type));
    out.append("\n");
    out.append("Frame ");
    push_num(&mut out, e.frame as u64);
    out.append(" | SubFrame ");
    push_num(&mut out, (e.slot / slots_per_subframe) as u64);
    out.append(" | Slot ");
    push_num(&mut out, (e.slot % slots_per_subframe) as u64);
    out.append("\n");
    out.append("PRB: ");
    push_num(&mut out, e.prb_start as u64);
    out.append("-");
    push_num(&mut out, (e.prb_start + e.prb_length - 1) as u64);
    out.append(" ");
    out.append("\n");
    out.append("Symbols: ");
    push_num(&mut out, e.symb_start as u64);
    out.append("-");
    push_num(&mut out, (e.symb_start + e.symb_length - 1) as u64);
    out
}

/// Slot view of a PHY event: its channel, frame and the hovered PRB, then the symbols
/// of the first run of its channel's resource.
pub open spec fn spec_event_slot_tooltip(
    e: CachedPHYEvent,
    prb: usize,
    summary: Seq<(ResourceType, usize, usize)>,
) -> Seq<char> {
    spec_channel_name(e.channel_type) + " (Slot view)"@ + "\n"@ + "Frame "@ + dec(e.frame as int)
        + " | PRB "@ + dec(prb as int) + symbols_line(summary, matches_channel(e.channel_type))
}

/// Appends the `Symbols: a-b` line of the first run that `keep` accepts, if any.
fn push_symbols_line(
    out: &mut String,
    summary: &Vec<(ResourceType, usize, usize)>,
    want: Option<ResourceType>,
    keep: Ghost<spec_fn(ResourceType) -> bool>,
)
    requires
        forall|rt: ResourceType| #[trigger] keep@(rt) <==> want == Some(rt),
    ensures
        final(out)@ == old(out)@ + symbols_line(summary@, keep@),
{
    let n = summary.len();
    let mut k: usize = 0;
    while k < n
        invariant
            n == summary@.len(),
            k <= n,
            forall|rt: ResourceType| #[trigger] keep@(rt) <==> want == Some(rt),
            first_run(summary@, keep@, 0) == first_run(summary@, keep@, k as int),
            out@ == old(out)@,
        decreases n - k,
    {
        let (rt, start, end) = summary[k];
        if want == Some(rt) {
            assert(keep@(summary@[k as int].0));
            out.append("\n");
            out.append("Symbols: ");
            push_num(out, start as u64);
            out.append("-");
            push_num(out, end as u64);
            return;
        }
        k = k + 1;
    }
}

/// Slot view of a PHY event (see `spec_event_slot_tooltip`).
pub fn event_slot_tooltip(e: &CachedPHYEvent, prb: usize, summary: &Vec<(ResourceType, usize, usize)>) -> (r: String)
    ensures
        r@ == spec_event_slot_tooltip(*e, prb, summary@),
{
    let mut out = String::from_str(channel_name(e.channel_type));
    out.append(" (Slot view)");
    out.append("\n");
    out.append("Frame ");
    push_num(&mut out, e.frame as u64);
    out.append(" | PRB ");
    push_num(&mut out, prb as u64);
    let want = match e.channel_type {
        PHYChannelType::PDSCH => Some(ResourceType::Pdsch),
        PHYChannelType::PUSCH => Some(ResourceType::Pusch),
        PHYChannelType::PUCCH => Some(ResourceType::Pucch),
        PHYChannelType::PRACH => Some(ResourceType::Prach),
        _ => None,
    };
    push_symbols_line(&mut out, summary, want, Ghost(matches_channel(e.channel_type)));
    out
}

/// Symbol view of an SSB: its id, period, PRBs and symbols.
pub open spec fn spec_ssb_symbol_tooltip(c: SsbConfig) -> Seq<char> {
    "SSB "@ + dec(c.id as int) + " (Synchronization Signal Block)"@ + "\n"@ + "Period: "@ + dec(
        c.period_ms as int,
    ) + "ms"@ + "\n"@ + "PRB: "@ + dec(c.prb_start as int) + "-"@ + dec(c.prb_start + c.prb_length - 1)
        + " "@ + "\n"@ + "Symbols: "@ + dec(c.symbol_start as int) + "-"@ + dec(
        c.symbol_start + c.symbol_length - 1,
    )
}

/// Symbol view of an SSB (see `spec_ssb_symbol_tooltip`).
pub fn ssb_symbol_tooltip(c: &SsbConfig) -> (r: String)
    requires
        1 <= c.prb_start + c.prb_length <= usize::MAX,
        1 <= c.symbol_start + c.symbol_length <= usize::MAX,
    ensures
        r@ == spec_ssb_symbol_tooltip(*c),
{
    let mut out = String::from_str("SSB ");
    push_num(&mut out, c.id as u64);
    out.append(" (Synchronization Signal Block)");
    out.append("\n");
    out.append("Period: ");
    push_num(&mut out, c.period_ms as u64);
    out.append("ms");
    out.append("\n");
    out.append("PRB: ");
    push_num(&mut out, c.prb_start as u64);
    out.append("-");
    push_num(&mut out, (c.prb_start + c.prb_length - 1) as u64);
    out.append(" ");
    out.append("\n");
    out.append("Symbols: ");
    push_num(&mut out, c.symbol_start as u64);
    out.append("-");
    push_num(&mut out, (c.symbol_start + c.symbol_length - 1) as u64);
    out
}

/// Slot view of an SSB: its id, period and PRBs, then the symbols of the first SSB run.
pub open spec fn spec_ssb_slot_tooltip(c: SsbConfig, summary: Seq<(ResourceType, usize, usize)>) -> Seq<char> {
    "SSB "@ + dec(c.id as int) + " (Slot view)"@ + "\n"@ + "Period: "@ + dec(c.period_ms as int) + "ms | PRB: "@
        + dec(c.prb_start as int) + "-"@ + dec(c.prb_start + c.prb_length - 1) + symbols_line(summary, is_ssb())
}

/// Slot view of an SSB (see `spec_ssb_slot_tooltip`).
pub fn ssb_slot_tooltip(c: &SsbConfig, summary: &Vec<(ResourceType, usize, usize)>) -> (r: String)
    requires
        1 <= c.prb_start + c.prb_length <= usize::MAX,
    ensures
        r@ == spec_ssb_slot_tooltip(*c, summary@),
{
    let mut out = String::from_str("SSB ");
    push_num(&mut out, c.id as u64);
    out.append(" (Slot view)");
    out.append("\n");
    out.append("Period: ");
    push_num(&mut out, c.period_ms as u64);
    out.append("ms | PRB: ");
    push_num(&mut out, c.prb_start as u64);
    out.append("-");
    push_num(&mut out, (c.prb_start + c.prb_length - 1) as u64);
    push_symbols_line(&mut out, summary, Some(ResourceType::Ssb), Ghost(is_ssb()));
    out
}

/// The line of a run in the summary of a PRB.
pub open spec fn run_line(t: (ResourceType, usize, usize)) -> Seq<char> {
    spec_resource_name(t.0) + ": symbols "@ + dec(t.1 as int) + "-"@ + dec(t.2 as int)
}

/// Slot view of a PRB with resources: the PRB and slot, the frame and subframe with the
/// number of runs, then one line per run; nothing when the PRB holds none.
pub open spec fn spec_prb_slot_tooltip(
    prb: usize,
    slot_number: u8,
    frame_number: u32,
    slots_per_subframe: u8,
    summary: Seq<(ResourceType, usize, usize)>,
) -> Option<Seq<char>> {
    if summary.len() == 0 {
        None
    } else {
        Some(
            join(
                seq![
                    "PRB "@ + dec(prb as int) + " in Slot "@ + dec(slot_number as int),
                    "Frame "@ + dec(frame_number as int) + "."@ + dec((slot_number / slots_per_subframe) as int) + " | "@
                        + dec(summary.len() as int) + " symbols active"@,
                ] + summary.map_values(|t: (ResourceType, usize, usize)| run_line(t)),
                "\n"@,
            ),
        )
    }
}

/// Slot view of a PRB (see `spec_prb_slot_tooltip`).
pub fn prb_slot_tooltip(
    prb: usize,
    slot_number: u8,
    frame_number: u32,
    slots_per_subframe: u8,
    summary: &Vec<(ResourceType, usize, usize)>,
) -> (r: Option<String>)
    requires
        slots_per_subframe > 0,
    ensures
        match r {
            Some(s) => spec_prb_slot_tooltip(prb, slot_number, frame_number, slots_per_subframe, summary@)
                == Some(s@),
            None => spec_prb_slot_tooltip(prb, slot_number, frame_number, slots_per_subframe, summary@) is None,
        },
{
    let n = summary.len();
    if n == 0 {
        return None;
    }
    let mut first = String::from_str("PRB ");
    push_num(&mut first, prb as u64);
    first.append(" in Slot ");
    push_num(&mut first, slot_number as u64);
    let mut second = String::from_str("Frame ");
    push_num(&mut second, frame_number as u64);
    second.append(".");
    push_num(&mut second, (slot_number / slots_per_subframe) as u64);
    second.append(" | ");
    push_num(&mut second, n as u64);
    second.append(" symbols active");
    let ghost head = seq![first@, second@];
    let ghost lines = summary@.map_values(|t: (ResourceType, usize, usize)| run_line(t));
    let mut out = first;
    out.append("\n");
    out.append(second.as_str());
    assert(head.drop_last() =~= seq![head[0]]);
    assert(join(seq![head[0]], "\n"@) == head[0]);
    assert(join(head, "\n"@) == head[0] + "\n"@ + head[1]);
    assert(head + lines.take(0) =~= head);
    let mut k: usize = 0;
    while k < n
        invariant
            n == summary@.len(),
            lines == summary@.map_values(|t: (ResourceType, usize, usize)| run_line(t)),
            head.len() == 2,
            k <= n,
            out@ == join(head + lines.take(k as int), "\n"@),
        decreases n - k,
    {
        let (rt, start, end) = summary[k];
        proof {
            assert((head + lines.take(k + 1)).drop_last() =~= head + lines.take(k as int));
            assert((head + lines.take(k + 1)).last() == run_line(summary@[k as int]));
        }
        out.append("\n");
        out.append(resource_name(rt));
        out.append(": symbols ");
        push_num(&mut out, start as u64);
        out.append("-");
        push_num(&mut out, end as u64);
        k = k + 1;
    }
    assert(lines.take(n as int) =~= lines);
    Some(out)
}

} // verus!
