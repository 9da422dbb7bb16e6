//! The output-forwarding loop of one connection.
//!
//! After the download tool is launched, its standard output is consumed one
//! line at a time; every line read is trimmed and forwarded to the client as
//! one outbound message, and the loop stops on end of stream, a read error,
//! or once the process is seen to have exited. `Pump` is that loop's state;
//! the caller feeds it what happened (a line arrived, the read failed, the
//! exit probe's verdict) and performs the action it returns.

use vstd::prelude::*;

verus! {

/// Whether a character belongs to the whitespace set that trimming removes
/// (the Unicode `White_Space` property).
pub open spec fn is_ws_char(c: char) -> bool {
    ||| c == ' '
    ||| c == '\t'
    ||| c == '\n'
    ||| c == '\u{0b}'
    ||| c == '\u{0c}'
    ||| c == '\r'
    ||| c == '\u{85}'
    ||| c == '\u{a0}'
    ||| c == '\u{1680}'
    ||| c == '\u{2000}'
    ||| c == '\u{2001}'
    ||| c == '\u{2002}'
    ||| c == '\u{2003}'
    ||| c == '\u{2004}'
    ||| c == '\u{2005}'
    ||| c == '\u{2006}'
    ||| c == '\u{2007}'
    ||| c == '\u{2008}'
    ||| c == '\u{2009}'
    ||| c == '\u{200a}'
    ||| c == '\u{2028}'
    ||| c == '\u{2029}'
    ||| c == '\u{202f}'
    ||| c == '\u{205f}'
    ||| c == '\u{3000}'
}

/// `s` without its leading whitespace.
pub open spec fn trim_start_spec(s: Seq<char>) -> Seq<char>
    decreases s.len(),
{
    if s.len() > 0 && is_ws_char(s[0]) {
        trim_start_spec(s.drop_first())
    } else {
        s
    }
}

/// `s` without its trailing whitespace.
pub open spec fn trim_end_spec(s: Seq<char>) -> Seq<char>
    decreases s.len(),
{
    if s.len() > 0 && is_ws_char(s.last()) {
        trim_end_spec(s.drop_last())
    } else {
        s
    }
}

/// `s` without leading and trailing whitespace.
pub open spec fn trim_spec(s: Seq<char>) -> Seq<char> {
    trim_end_spec(trim_start_spec(s))
}

/// Whether `c` is in the whitespace set that trimming removes.
pub fn is_ws(c: char) -> (r: bool)
    ensures
        r == is_ws_char(c),
{
    c == ' ' || c == '\t' || c == '\n' || c == '\u{0b}' || c == '\u{0c}' || c == '\r'
        || c == '\u{85}' || c == '\u{a0}' || c == '\u{1680}' || c == '\u{2000}' || c == '\u{2001}'
        || c == '\u{2002}' || c == '\u{2003}' || c == '\u{2004}' || c == '\u{2005}'
        || c == '\u{2006}' || c == '\u{2007}' || c == '\u{2008}' || c == '\u{2009}'
        || c == '\u{200a}' || c == '\u{2028}' || c == '\u{2029}' || c == '\u{202f}'
        || c == '\u{205f}' || c == '\u{3000}'
}

/// If the first `i` characters of `s` are whitespace and the character at
/// `i` (if any) is not, the untrimmed tail starts exactly at `i`.
proof fn lemma_trim_start_at(s: Seq<char>, i: int)
    requires
        0 <= i <= s.len(),
        forall|k: int| 0 <= k < i ==> is_ws_char(s[k]),
        i < s.len() ==> !is_ws_char(s[i]),
    ensures
        trim_start_spec(s) == s.subrange(i, s.len() as int),
    decreases i,
{
    if i == 0 {
        assert(trim_start_spec(s) =~= s.subrange(0, s.len() as int)) by {
            if s.len() > 0 && is_ws_char(s[0]) {
            } else {
                assert(s =~= s.subrange(0, s.len() as int));
            }
        }
    } else {
        let t = s.drop_first();
        assert(forall|k: int| 0 <= k < i - 1 ==> is_ws_char(#[trigger] t[k]));
        lemma_trim_start_at(t, i - 1);
        assert(t.subrange(i - 1, t.len() as int) =~= s.subrange(i, s.len() as int));
    }
}

/// If the characters of `s` after `j` are whitespace and the character at
/// `j - 1` (if any) is not, trimming the end cuts exactly at `j`.
proof fn lemma_trim_end_at(s: Seq<char>, j: int)
    requires
        0 <= j <= s.len(),
        forall|k: int| j <= k < s.len() ==> is_ws_char(s[k]),
        j > 0 ==> !is_ws_char(s[j - 1]),
    ensures
        trim_end_spec(s) == s.subrange(0, j),
    decreases s.len() - j,
{
    if j == s.len() {
        assert(trim_end_spec(s) =~= s.subrange(0, j)) by {
            if s.len() > 0 && is_ws_char(s.last()) {
            } else {
                assert(s =~= s.subrange(0, s.len() as int));
            }
        }
    } else {
        let t = s.drop_last();
        assert(is_ws_char(s.last()));
        lemma_trim_end_at(t, j);
        assert(t.subrange(0, j) =~= s.subrange(0, j));
    }
}

/// Removes leading and trailing whitespace, in the sense of `trim_spec`.
pub fn trim_line(s: &str) -> (r: String)
    ensures
        r@ == trim_spec(s@),
{
    let len = s.unicode_len();
    let mut i: usize = 0;
    while i < len && is_ws(s.get_char(i))
        invariant
            0 <= i <= len,
            len == s@.len(),
            forall|k: int| 0 <= k < i ==> is_ws_char(s@[k]),
        decreases len - i,
    {
        i = i + 1;
    }
    let mut j: usize = len;
    while j > i && is_ws(s.get_char(j - 1))
        invariant
            i <= j <= len,
            len == s@.len(),
            forall|k: int| j <= k < len ==> is_ws_char(s@[k]),
        decreases j,
    {
        j = j - 1;
    }
    proof {
        lemma_trim_start_at(s@, i as int);
        let t = s@.subrange(i as int, s@.len() as int);
        lemma_trim_end_at(t, j - i);
        assert(t.subrange(0, j - i) =~= s@.subrange(i as int, j as int));
    }
    let piece = s.substring_char(i, j);
    String::from_str(piece)
}

/// What happened while pumping: a line was read (an empty one is the end of
/// the stream), the read failed, or the exit probe after a forwarded line
/// found the process still running, exited, or could not be queried.
pub enum PumpEvent {
    Line(String),
    ReadFailed,
    Running,
    Exited,
    ProbeFailed,
}

/// What the caller must do next: forward one outbound text message, keep
/// pumping, or stop and close the connection.
pub enum PumpAction {
    Forward(String),
    Continue,
    Stop,
}

/// Whether an event ends the pumping loop.
pub open spec fn ev_stops(ev: PumpEvent) -> bool {
    match ev {
        PumpEvent::Line(s) => s@.len() == 0,
        PumpEvent::ReadFailed => true,
        PumpEvent::Running => false,
        PumpEvent::Exited => true,
        PumpEvent::ProbeFailed => true,
    }
}

/// The outbound message an event produces, if any: a non-empty line read is
/// forwarded trimmed, every other event produces nothing.
pub open spec fn ev_output(ev: PumpEvent) -> Option<Seq<char>> {
    match ev {
        PumpEvent::Line(s) => if s@.len() == 0 {
            Option::None
        } else {
            Option::Some(trim_spec(s@))
        },
        _ => Option::None,
    }
}

/// The state of one connection's forwarding loop. Once `running` is false
/// the loop is over and every further event is answered with `Stop`.
pub struct Pump {
    pub running: bool,
}

impl Pump {
    /// A pump for a freshly launched subprocess.
    pub fn new() -> (p: Pump)
        ensures
            p.running,
    {
        Pump { running: true }
    }

    /// Advances the loop by one event. A non-empty line is answered with
    /// `Forward` of its trimmed text; end of stream, a failed read, an
    /// observed exit or a failed probe stop the loop; a probe that finds
    /// the process still running lets it continue.
    pub fn on_event(&mut self, ev: &PumpEvent) -> (a: PumpAction)
        ensures
            final(self).running == (old(self).running && !ev_stops(*ev)),
            (match a {
                PumpAction::Forward(t) => old(self).running && ev_output(*ev) == Option::Some(t@),
                PumpAction::Continue => old(self).running && !ev_stops(*ev) && ev_output(*ev)
                    is None,
                PumpAction::Stop => !old(self).running || ev_stops(*ev),
            }),
    {
        if !self.running {
            return PumpAction::Stop;
        }
        match ev {
            PumpEvent::Line(line) => {
                if line.as_str().unicode_len() == 0 {
                    self.running = false;
                    PumpAction::Stop
                } else {
                    PumpAction::Forward(trim_line(line.as_str()))
                }
            },
            PumpEvent::Running => PumpAction::Continue,
            PumpEvent::ReadFailed => {
                self.running = false;
                PumpAction::Stop
            },
            PumpEvent::Exited => {
                self.running = false;
                PumpAction::Stop
            },
            PumpEvent::ProbeFailed => {
                self.running = false;
                PumpAction::Stop
            },
        }
    }
}

/// Runs a whole forwarding loop over a scripted sequence of events, as the
/// connection handler runs it over a live subprocess, and returns the
/// messages forwarded: exactly `run_outputs` of the script. Substituting a
/// script for the subprocess exercises the same loop the handler uses.
pub fn pump_script(events: &Vec<PumpEvent>) -> (out: Vec<String>)
    ensures
        out.deep_view() == run_outputs(true, events@),
{
    let mut pump = Pump::new();
    let mut out: Vec<String> = Vec::new();
    let mut i: usize = 0;
    proof {
        assert(out.deep_view() + run_outputs(true, events@.skip(0)) =~= run_outputs(
            true,
            events@.skip(0),
        ));
        assert(events@.skip(0) =~= events@);
    }
    while i < events.len()
        invariant
            0 <= i <= events@.len(),
            run_outputs(true, events@) == out.deep_view() + run_outputs(
                pump.running,
                events@.skip(i as int),
            ),
        decreases events@.len() - i,
    {
        let ghost prev_running = pump.running;
        let ghost prev_out = out.deep_view();
        let ghost rest = events@.skip(i as int);
        let ghost next = events@.skip(i as int + 1);
        let a = pump.on_event(&events[i]);
        proof {
            assert(rest[0] == events@[i as int]);
            assert(rest.drop_first() =~= next);
        }
        match a {
            PumpAction::Forward(t) => {
                proof {
                    assert(run_outputs(prev_running, rest) == seq![t@] + run_outputs(
                        pump.running,
                        next,
                    ));
                }
                out.push(t);
                proof {
                    assert(out.deep_view() =~= prev_out + seq![out@.last()@]);
                    assert(prev_out + (seq![out@.last()@] + run_outputs(pump.running, next))
                        =~= (prev_out + seq![out@.last()@]) + run_outputs(pump.running, next));
                }
            },
            PumpAction::Continue => {
                proof {
                    assert(run_outputs(prev_running, rest) == run_outputs(pump.running, next));
                }
            },
            PumpAction::Stop => {
                proof {
                    lemma_stopped_no_outputs(next);
                    if prev_running {
                        assert(run_outputs(prev_running, rest) =~= Seq::<Seq<char>>::empty());
                    } else {
                        lemma_stopped_no_outputs(rest);
                    }
                    assert(run_outputs(pump.running, next) =~= Seq::<Seq<char>>::empty());
                }
            },
        }
        i = i + 1;
    }
    proof {
        assert(events@.skip(i as int) =~= Seq::<PumpEvent>::empty());
        assert(out.deep_view() + Seq::<Seq<char>>::empty() =~= out.deep_view());
    }
    out
}

/// The sequence of outbound messages a pump in state `running` produces
/// over a sequence of events: each event's output in order, cut off at the
/// first stopping event.
pub open spec fn run_outputs(running: bool, evs: Seq<PumpEvent>) -> Seq<Seq<char>>
    decreases evs.len(),
{
    if !running || evs.len() == 0 {
        Seq::empty()
    } else {
        let rest = run_outputs(!ev_stops(evs[0]), evs.drop_first());
        match ev_output(evs[0]) {
            Option::Some(t) => seq![t] + rest,
            Option::None => rest,
        }
    }
}

/// The raw text of the lines read before the first stopping event.
pub open spec fn lines_before_stop(evs: Seq<PumpEvent>) -> Seq<Seq<char>>
    decreases evs.len(),
{
    if evs.len() == 0 || ev_stops(evs[0]) {
        Seq::empty()
    } else {
        match evs[0] {
            PumpEvent::Line(s) => seq![s@] + lines_before_stop(evs.drop_first()),
            _ => lines_before_stop(evs.drop_first()),
        }
    }
}

/// A pump that has stopped produces nothing more.
proof fn lemma_stopped_no_outputs(evs: Seq<PumpEvent>)
    ensures
        run_outputs(false, evs) == Seq::<Seq<char>>::empty(),
{
}

/// Whatever the subprocess does, the messages forwarded to the client are
/// exactly the lines it emitted before the loop stopped, each trimmed, in
/// emission order: nothing reordered, nothing dropped, nothing invented.
pub proof fn lemma_outputs_are_trimmed_lines(evs: Seq<PumpEvent>)
    ensures
        run_outputs(true, evs) == lines_before_stop(evs).map_values(|l: Seq<char>| trim_spec(l)),
    decreases evs.len(),
{
    let f = (|l: Seq<char>| trim_spec(l));
    if evs.len() == 0 || ev_stops(evs[0]) {
        if evs.len() > 0 {
            lemma_stopped_no_outputs(evs.drop_first());
        }
        assert(run_outputs(true, evs) =~= lines_before_stop(evs).map_values(f));
    } else {
        lemma_outputs_are_trimmed_lines(evs.drop_first());
        let rest = run_outputs(true, evs.drop_first());
        let lrest = lines_before_stop(evs.drop_first());
        if evs[0] is Line {
            let s = evs[0]->Line_0;
            assert(ev_output(evs[0]) == Option::Some(trim_spec(s@)));
            assert(lines_before_stop(evs) == seq![s@] + lrest);
            assert((seq![s@] + lrest).map_values(f) =~= seq![trim_spec(s@)] + lrest.map_values(f));
            assert(run_outputs(true, evs) =~= lines_before_stop(evs).map_values(f));
        } else {
            assert(ev_output(evs[0]) is None);
            assert(lines_before_stop(evs) == lrest);
            assert(run_outputs(true, evs) =~= lines_before_stop(evs).map_values(f));
        }
    }
}

/// A subprocess that emits nothing has nothing forwarded: over events none
/// of which carries a non-empty line, the pump produces no messages.
pub proof fn lemma_no_lines_no_outputs(evs: Seq<PumpEvent>)
    requires
        forall|i: int| 0 <= i < evs.len() ==> ev_output(evs[i]) is None,
    ensures
        run_outputs(true, evs) == Seq::<Seq<char>>::empty(),
    decreases evs.len(),
{
    if evs.len() > 0 {
        assert(ev_output(evs[0]) is None);
        if ev_stops(evs[0]) {
            lemma_stopped_no_outputs(evs.drop_first());
        } else {
            assert(forall|i: int|
                0 <= i < evs.drop_first().len() ==> ev_output(#[trigger] evs.drop_first()[i])
                    is None);
            lemma_no_lines_no_outputs(evs.drop_first());
        }
        assert(run_outputs(true, evs) =~= Seq::<Seq<char>>::empty());
    }
}

/// A line of nothing but whitespace is still forwarded, as the empty
/// message: trimming empties it, but does not suppress it.
pub proof fn lemma_blank_line_forwarded(ev: PumpEvent)
    requires
        ev matches PumpEvent::Line(l) && l@.len() > 0 && (forall|i: int|
            0 <= i < l@.len() ==> is_ws_char(l@[i])),
    ensures
        ev_output(ev) == Option::Some(Seq::<char>::empty()),
{
    let l = ev->Line_0;
    lemma_trim_start_at(l@, l@.len() as int);
    assert(trim_start_spec(l@) =~= Seq::<char>::empty());
    assert(trim_spec(l@) =~= Seq::<char>::empty());
}

} // verus!
