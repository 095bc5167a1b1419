//! The lines that a trace is reported with.

use crate::method::ReplyKind;
use crate::text::{decimal, decimal_right_2, decimal_right_2_text, decimal_text};
use crate::trace::{HopResult, Probe};
use vstd::prelude::*;

verus! {

/// The parts of a line that are written elsewhere.
#[derive(Debug)]
pub struct HopLabel {
    /// The text of the address that answered, where there is one.
    pub source: String,
    /// The round trip time in milliseconds.
    pub rtt_ms: String,
}

impl HopResult {
    /// How an answer is shown, with the address and the time written out.
    pub open spec fn shown(self, source: Seq<char>, rtt_ms: Seq<char>) -> Seq<char> {
        let answered = (if self.source is Some {
            source
        } else {
            "?"@
        }) + "  "@ + rtt_ms + " ms"@;
        match self.kind {
            ReplyKind::Unreachable(annotation) => answered + "  "@ + annotation.shown(),
            _ => answered,
        }
    }

    /// Render the answer: who sent it, the round trip time and, for a failed
    /// delivery, what failed.
    pub fn to_string(&self, source: &str, rtt_ms: &str) -> (text: String)
        ensures
            text@ == self.shown(source@, rtt_ms@),
    {
        let mut text: String = String::new();
        match self.source {
            Some(_) => {
                text.append(source);
            },
            None => {
                text.append("?");
            },
        }
        text.append("  ");
        text.append(rtt_ms);
        text.append(" ms");
        assert(text@ =~= (if self.source is Some {
            source@
        } else {
            "?"@
        }) + "  "@ + rtt_ms@ + " ms"@);
        if let ReplyKind::Unreachable(annotation) = self.kind {
            text.append("  ");
            text.append(annotation.to_string().as_str());
        }
        text
    }
}

/// Whether the target answered a probe, which makes its line the last.
pub open spec fn ends_report(probe: Probe) -> bool {
    probe.result matches Some(result) && result.kind is Destination
}

/// The number of probes with a line: all up to the first that the target
/// answered, or all of them.
pub open spec fn lines_len(probes: Seq<Probe>) -> nat
    decreases probes.len(),
{
    if probes.len() == 0 {
        0
    } else if ends_report(probes[0]) {
        1
    } else {
        1 + lines_len(probes.skip(1))
    }
}

/// The line of a probe.
pub open spec fn line_of(probe: Probe, source: Seq<char>, rtt_ms: Seq<char>) -> Seq<char> {
    decimal_right_2(probe.ttl as int) + "  "@ + (match probe.result {
        Some(result) => result.shown(source, rtt_ms),
        None => "*"@,
    })
}

/// Write the line of a probe.
pub fn probe_line(probe: &Probe, label: &HopLabel) -> (line: String)
    ensures
        line@ == line_of(*probe, label.source@, label.rtt_ms@),
{
    let mut line: String = decimal_right_2_text(probe.ttl as u64);
    line.append("  ");
    match &probe.result {
        Some(result) => {
            line.append(result.to_string(label.source.as_str(), label.rtt_ms.as_str()).as_str());
        },
        None => {
            line.append("*");
        },
    }
    line
}

/// Write the results of a trace, one line for each probe.
pub fn result_lines(probes: &Vec<Probe>, labels: &Vec<HopLabel>) -> (lines: Vec<String>)
    requires
        labels.len() == probes.len(),
    ensures
        lines.len() == lines_len(probes@),
        lines.len() <= probes.len(),
        probes.len() > 0 ==> lines.len() > 0,
        forall|i: int|
            0 <= i < lines.len() - 1 ==> !((#[trigger] probes@[i]).result matches Some(result)
                && result.kind == ReplyKind::Destination),
        lines.len() < probes.len() ==> (probes@[lines.len() - 1].result matches Some(result)
            && result.kind == ReplyKind::Destination),
        forall|i: int|
            #![trigger lines@[i]]
            0 <= i < lines.len() ==> lines@[i]@ == line_of(
                probes@[i],
                labels@[i].source@,
                labels@[i].rtt_ms@,
            ),
{
    let mut lines: Vec<String> = Vec::new();
    let mut index: usize = 0;
    assert(probes@.skip(0) =~= probes@);
    while index < probes.len()
        invariant
            index <= probes.len() == labels.len(),
            lines.len() == index,
            index + lines_len(probes@.skip(index as int)) == lines_len(probes@),
            forall|i: int|
                #![trigger lines@[i]]
                0 <= i < lines.len() ==> lines@[i]@ == line_of(
                    probes@[i],
                    labels@[i].source@,
                    labels@[i].rtt_ms@,
                ),
        decreases probes.len() - index,
    {
        lines.push(probe_line(&probes[index], &labels[index]));
        assert(probes@.skip(index as int).skip(1) =~= probes@.skip(index + 1));
        if let Some(result) = &probes[index].result {
            // Because we submitted every probe at once, we'll observe
            // multiple replies if the maximum TTL exceeded the final hop.
            if result.kind.terminates_trace() {
                proof {
                    law_report_stops_at_target(probes@);
                }
                return lines;
            }
        }
        index = index + 1;
    }
    proof {
        law_report_stops_at_target(probes@);
    }
    lines
}

/// The report stops at the first probe that the target answered, and for no other
/// reason: no line before the last is one, and if there are fewer lines than
/// probes, the last is. Neither the time of an answer nor its sender nor the hop
/// counts.
pub proof fn law_report_stops_at_target(probes: Seq<Probe>)
    ensures
        lines_len(probes) <= probes.len(),
        probes.len() > 0 ==> lines_len(probes) > 0,
        forall|i: int|
            0 <= i < lines_len(probes) - 1 ==> !((#[trigger] probes[i]).result matches Some(result)
                && result.kind == ReplyKind::Destination),
        lines_len(probes) < probes.len() ==> (probes[lines_len(probes) - 1].result matches Some(
            result,
        ) && result.kind == ReplyKind::Destination),
    decreases probes.len(),
{
    if probes.len() > 0 && !ends_report(probes[0]) {
        let rest = probes.skip(1);
        law_report_stops_at_target(rest);
        assert forall|i: int| 0 <= i < lines_len(probes) - 1 implies !((
        #[trigger] probes[i]).result matches Some(result) && result.kind
            == ReplyKind::Destination) by {
            if i > 0 {
                assert(rest[i - 1] == probes[i]);
            }
        }
    }
}

/// The heading of a report.
pub open spec fn heading_of(
    target: Seq<char>,
    address: Seq<char>,
    max_hops: int,
    size: int,
) -> Seq<char> {
    "tracing "@ + target + " ("@ + address + "), "@ + decimal(max_hops) + " hops max, "@ + decimal(
        size,
    ) + " byte packets"@
}

/// Write the heading of a report.
pub fn heading(target: &str, address: &str, max_hops: u8, size: usize) -> (line: String)
    ensures
        line@ == heading_of(target@, address@, max_hops as int, size as int),
{
    let mut line: String = String::new();
    line.append("tracing ");
    line.append(target);
    line.append(" (");
    line.append(address);
    line.append("), ");
    line.append(decimal_text(max_hops as u64).as_str());
    line.append(" hops max, ");
    line.append(decimal_text(size as u64).as_str());
    line.append(" byte packets");
    assert(line@ =~= heading_of(target@, address@, max_hops as int, size as int));
    line
}

/// How an answer is shown: who sent it, or a question mark where that is not
/// known, and the time. A failed delivery has its marker behind that, and no
/// other answer has anything there.
pub proof fn law_answer_shown(result: HopResult, source: Seq<char>, rtt_ms: Seq<char>)
    ensures
        ({
            let sender = if result.source is Some {
                source
            } else {
                "?"@
            };
            let answered = sender + "  "@ + rtt_ms + " ms"@;
            &&& result.kind is Hop ==> result.shown(source, rtt_ms) == answered
            &&& result.kind is Destination ==> result.shown(source, rtt_ms) == answered
            &&& result.kind matches ReplyKind::Unreachable(failure) ==> result.shown(
                source,
                rtt_ms,
            ) == answered + "  "@ + failure.shown()
        }),
{
}

/// A line starts with the number of the hop, right-aligned to two characters, and
/// goes on with the answer, or with an asterisk where there is none.
pub proof fn law_line(probe: Probe, source: Seq<char>, rtt_ms: Seq<char>)
    ensures
        probe.result is None ==> line_of(probe, source, rtt_ms) == decimal_right_2(
            probe.ttl as int,
        ) + "  "@ + "*"@,
        probe.result matches Some(result) ==> line_of(probe, source, rtt_ms) == decimal_right_2(
            probe.ttl as int,
        ) + "  "@ + result.shown(source, rtt_ms),
{
}

/// The heading names the target and its address, the number of hops and the size
/// of a packet.
pub proof fn law_heading(target: Seq<char>, address: Seq<char>, max_hops: int, size: int)
    ensures
        heading_of(target, address, max_hops, size) == "tracing "@ + target + " ("@ + address
            + "), "@ + decimal(max_hops) + " hops max, "@ + decimal(size) + " byte packets"@,
{
}

} // verus!
