//! What the lowering of a function body reads and what it changes.
use vstd::prelude::*;

use crate::analysis::BceBound;
use crate::ctypes;
use crate::hir::{HFunc, SymTab};
use crate::sorted::SortedMap;
use crate::text;

verus! {

/// What changes while bodies are lowered.
#[verifier::ext_equal]
pub struct St {
    /// Locals that are pointers into existing storage in C.
    pub aliased: Set<u32>,
    /// How many inline calls have been expanded.
    pub seq: nat,
}

/// What stays fixed while a piece of a body is lowered.
pub struct Cx {
    pub sym: SymTab,
    /// The structs and enums that own heap memory.
    pub owns: Set<Seq<char>>,
    /// The function that the piece belongs to.
    pub f: HFunc,
    /// The tag of the inline expansion that the piece stands in.
    pub tag: Option<Seq<char>>,
    /// The value of that expansion is used.
    pub wanted: bool,
    /// The indentation of statements.
    pub ind: Seq<char>,
    /// The loop counters in scope whose range is known.
    pub bounded: Seq<(u32, BceBound)>,
}

/// A lowered piece, and the state after it.
#[verifier::ext_equal]
pub struct Out {
    pub text: Seq<char>,
    pub st: St,
}

/// Several lowered pieces, and the state after the last.
#[verifier::ext_equal]
pub struct Outs {
    pub texts: Seq<Seq<char>>,
    pub st: St,
}

/// The known counters, and one more where there is one.
pub open spec fn counted(
    known: Seq<(u32, BceBound)>,
    bound: Option<(u32, BceBound)>,
) -> Seq<(u32, BceBound)> {
    match bound {
        Some(b) => known.push(b),
        None => known,
    }
}

impl Cx {
    /// The same, one level of indentation deeper.
    pub open spec fn nested(self) -> Cx {
        Cx { ind: text::deeper_c(self.ind), ..self }
    }

    /// The same, with one more known counter where there is one.
    pub open spec fn counting(self, bound: Option<(u32, BceBound)>) -> Cx {
        self.knowing(counted(self.bounded, bound))
    }

    /// The same, with other known counters.
    pub open spec fn knowing(self, bounded: Seq<(u32, BceBound)>) -> Cx {
        Cx { bounded, ..self }
    }

    /// The same, inside the expansion of the inline function `g`. The counters of the
    /// caller's loops are not those of `g`.
    pub open spec fn inside(self, g: HFunc, tag: Seq<char>, wanted: bool) -> Cx {
        Cx { f: g, tag: Some(tag), wanted, bounded: Seq::empty(), ..self }
    }

    /// Names are those of an inline expansion.
    pub open spec fn spliced(self) -> bool {
        self.tag is Some
    }
}

/// What changes while bodies are lowered.
pub struct State {
    pub aliased: SortedMap<u32, ()>,
    /// The count of expansions as it is written, which wraps around.
    pub seq: u32,
    /// The count of expansions.
    pub count: Ghost<nat>,
}

/// The number that is written for the `n`th expansion.
pub open spec fn written_number(n: nat) -> nat {
    n % 0x1_0000_0000
}

impl State {
    /// The model of the state.
    pub open spec fn st(self) -> St {
        St { aliased: self.aliased.dom(), seq: self.count@ }
    }

    /// The parts are well formed.
    pub open spec fn wf(self) -> bool {
        self.aliased.wf() && self.seq == written_number(self.count@)
    }

    /// Counts an expansion.
    pub fn expand(&mut self)
        requires
            old(self).wf(),
        ensures
            final(self).wf(),
            final(self).st() == (St { seq: old(self).st().seq + 1, ..old(self).st() }),
    {
        self.seq = self.seq.wrapping_add(1);
        self.count = Ghost(self.count@ + 1);
    }

    /// The state before the first body.
    pub fn new() -> (r: Self)
        ensures
            r.wf(),
            r.st() == (St { aliased: Set::empty(), seq: 0 }),
    {
        State { aliased: SortedMap::new(), seq: 0, count: Ghost(0) }
    }
}

/// The lowering of one piece of a body.
pub struct Lowering<'a> {
    pub sym: &'a SymTab,
    pub owns: &'a SortedMap<String, ()>,
    pub f: &'a HFunc,
    pub tag: Option<&'a str>,
    pub wanted: bool,
    pub ind: &'a str,
    pub bounded: &'a Vec<(u32, BceBound)>,
}

impl<'a> Lowering<'a> {
    /// The model of the context.
    pub open spec fn cx(self) -> Cx {
        Cx {
            sym: *self.sym,
            owns: self.owns.dom(),
            f: *self.f,
            tag: ctypes::opt_view(self.tag),
            wanted: self.wanted,
            ind: self.ind@,
            bounded: self.bounded@,
        }
    }

    /// The parts are well formed.
    pub open spec fn wf(self) -> bool {
        self.owns.wf()
    }

    /// The same with the indentation `ind`.
    pub fn at<'b>(&'b self, ind: &'b str) -> (r: Lowering<'b>)
        requires
            self.wf(),
        ensures
            r.wf(),
            r.cx() == (Cx { ind: ind@, ..self.cx() }),
    {
        Lowering {
            sym: self.sym,
            owns: self.owns,
            f: self.f,
            tag: self.tag,
            wanted: self.wanted,
            ind,
            bounded: self.bounded,
        }
    }

    /// The same with the known counters `bounded`.
    pub fn within<'b>(&'b self, bounded: &'b Vec<(u32, BceBound)>) -> (r: Lowering<'b>)
        requires
            self.wf(),
        ensures
            r.wf(),
            r.cx() == (Cx { bounded: bounded@, ..self.cx() }),
    {
        Lowering {
            sym: self.sym,
            owns: self.owns,
            f: self.f,
            tag: self.tag,
            wanted: self.wanted,
            ind: self.ind,
            bounded,
        }
    }

    /// The same, inside the expansion `tag` of the inline function `g`, in which the
    /// counters `none` are known.
    pub fn splice<'b>(
        &'b self,
        g: &'b HFunc,
        tag: &'b str,
        wanted: bool,
        none: &'b Vec<(u32, BceBound)>,
    ) -> (r: Lowering<'b>)
        requires
            self.wf(),
            none@.len() == 0,
        ensures
            r.wf(),
            r.cx() == self.cx().inside(*g, tag@, wanted),
    {
        assert(none@ =~= Seq::empty());
        Lowering {
            sym: self.sym,
            owns: self.owns,
            f: g,
            tag: Some(tag),
            wanted,
            ind: self.ind,
            bounded: none,
        }
    }

    /// The known counters, with one more where there is one.
    pub fn counters(&self, bound: Option<(u32, BceBound)>) -> (r: Vec<(u32, BceBound)>)
        ensures
            r@ == self.cx().counting(bound).bounded,
    {
        let mut r: Vec<(u32, BceBound)> = Vec::new();
        let mut i: usize = 0;
        while i < self.bounded.len()
            invariant
                i <= self.bounded@.len(),
                r@ == self.bounded@.take(i as int),
            decreases self.bounded@.len() - i,
        {
            r.push(self.bounded[i]);
            assert(self.bounded@.take(i + 1) =~= self.bounded@.take(i as int).push(
                self.bounded@[i as int],
            ));
            i += 1;
        }
        assert(self.bounded@.take(i as int) =~= self.bounded@);
        match bound {
            Some(b) => {
                r.push(b);
            },
            None => {},
        }
        r
    }
}

} // verus!
