//! Assembly text as a sequence of lines, and how emitting it can stop.
use vstd::prelude::*;

verus! {

/// Why emitting assembly stopped before its end.
pub enum Halt {
    /// The input is rejected with this message; the program exits with status 1.
    Exit(String),
    /// The input makes the emitter panic (a missing operand, a seventh argument
    /// register, an arithmetic overflow).
    Crash,
}

pub ghost enum HaltV {
    Exit(Seq<char>),
    Crash,
}

pub open spec fn halt_view(h: Halt) -> HaltV {
    match h {
        Halt::Exit(m) => HaltV::Exit(m@),
        Halt::Crash => HaltV::Crash,
    }
}

/// The outcome of an emitter: `None` when it ran to its end.
pub open spec fn result_view(r: Result<(), Halt>) -> Option<HaltV> {
    match r {
        Ok(()) => None,
        Err(h) => Some(halt_view(h)),
    }
}

/// Lines of assembly, and whether emitting stopped early.
pub ghost struct Emitted {
    pub lines: Seq<Seq<char>>,
    pub halt: Option<HaltV>,
}

pub open spec fn lines_view(v: Seq<String>) -> Seq<Seq<char>> {
    v.map_values(|s: String| s@)
}

/// `e` with `pre` emitted before it.
pub open spec fn after(pre: Seq<Seq<char>>, e: Emitted) -> Emitted {
    Emitted { lines: pre + e.lines, halt: e.halt }
}

pub open spec fn finished(lines: Seq<Seq<char>>) -> Emitted {
    Emitted { lines, halt: None }
}

pub open spec fn stopped(lines: Seq<Seq<char>>, h: HaltV) -> Emitted {
    Emitted { lines, halt: Some(h) }
}

pub proof fn lemma_lines_view_push(v: Seq<String>, s: String)
    ensures
        lines_view(v.push(s)) == lines_view(v).push(s@),
{
    assert(lines_view(v.push(s)) =~= lines_view(v).push(s@));
}

/// Appends one line of assembly.
pub fn emit(out: &mut Vec<String>, line: String)
    ensures
        lines_view(final(out)@) == lines_view(old(out)@).push(line@),
{
    proof {
        lemma_lines_view_push(out@, line);
    }
    out.push(line);
}

} // verus!
