//! The hierarchical variable scopes of the virtual machine.
//!
//! A `Scope` is one binding frame: an insertion-ordered map from names to
//! values. A `Scopes` is the stack of frames active during execution: one
//! active top frame and the saved outer frames beneath it. Lookup searches
//! the top frame first and then the saved frames from most to least
//! recently pushed. Dotted identifier paths descend from a resolved root
//! variable through nested arrays (by numeric index) and objects (by key).

use vstd::prelude::*;
use vstd::string::*;
use crate::diag::{SpreadSheetError, SpreadSheetResult};
use crate::ast::{Expression, ExpressionV};
use crate::strmap::{
    StrMap, strmap_entries, strmap_get, strmap_insert, strmap_new, strmap_pairs, entries_lookup,
    entries_insert,
};
use crate::text::{spec_parse_usize, parse_usize};
use crate::values::{Value, ValueV};

verus! {

/// A map from binding names to values: one lexical binding frame.
pub struct Scope {
    pub map: StrMap,
}

impl View for Scope {
    type V = Seq<(Seq<char>, ValueV)>;

    /// A scope is seen as its bindings, in insertion order.
    open spec fn view(&self) -> Seq<(Seq<char>, ValueV)> {
        strmap_entries(self.map)
    }
}

impl Scope {
    /// Creates a new empty scope.
    pub fn new() -> (s: Self)
        ensures
            s@ == Seq::<(Seq<char>, ValueV)>::empty(),
    {
        Scope { map: strmap_new() }
    }

    /// Binds a value to a name in this scope, overwriting any previous
    /// binding of the same name in place.
    pub fn define(&mut self, name: &str, value: Value)
        ensures
            final(self)@ == crate::strmap::entries_insert(old(self)@, name@, value@),
    {
        strmap_insert(&mut self.map, String::from_str(name), value);
    }

    /// Looks a name up in this scope alone.
    pub fn get<'a>(&'a self, var: &str) -> (r: Option<&'a Value>)
        ensures
            match r {
                Some(v) => entries_lookup(self@, var@) == Some(v@),
                None => entries_lookup(self@, var@) is None,
            },
    {
        strmap_get(&self.map, var)
    }

    /// All bindings of this scope, in insertion order.
    pub fn pairs(&self) -> (r: Vec<(String, Value)>)
        ensures
            r@.len() == self@.len(),
            forall|i: int| 0 <= i < r@.len() ==> (r@[i].0@, r@[i].1@) == self@[i],
    {
        strmap_pairs(&self.map)
    }
}

impl Default for Scope {
    /// The default scope is empty.
    fn default() -> (s: Self)
        ensures
            s@ == Seq::<(Seq<char>, ValueV)>::empty(),
    {
        Scope::new()
    }
}

/// Looking a name up in a stack of frames, from the last pushed down.
pub open spec fn stack_lookup(
    frames: Seq<Seq<(Seq<char>, ValueV)>>,
    k: Seq<char>,
) -> Option<ValueV>
    decreases frames.len(),
{
    if frames.len() == 0 {
        None
    } else {
        match entries_lookup(frames.last(), k) {
            Some(v) => Some(v),
            None => stack_lookup(frames.drop_last(), k),
        }
    }
}

/// The stack of lexical scopes: one active top frame over saved outer
/// frames.
pub struct Scopes {
    /// The active scope.
    pub top: Scope,
    /// The stack of lower scopes, least recently pushed first.
    pub scopes: Vec<Scope>,
}

/// The mathematical shape of a scope stack: the active frame's bindings
/// and the saved frames' bindings, least recently pushed first.
pub struct ScopesV {
    pub top: Seq<(Seq<char>, ValueV)>,
    pub stack: Seq<Seq<(Seq<char>, ValueV)>>,
}

impl ScopesV {
    /// Looking a name up: the active frame first, then the saved frames
    /// from most to least recently pushed.
    pub open spec fn lookup(self, k: Seq<char>) -> Option<ValueV> {
        match entries_lookup(self.top, k) {
            Some(v) => Some(v),
            None => stack_lookup(self.stack, k),
        }
    }

    /// The state after entering a new scope.
    pub open spec fn enter(self) -> ScopesV {
        ScopesV { top: Seq::empty(), stack: self.stack.push(self.top) }
    }

    /// The state after exiting the topmost scope.
    pub open spec fn exit(self) -> ScopesV {
        ScopesV { top: self.stack.last(), stack: self.stack.drop_last() }
    }

    /// The state after binding `k` to `v` in the active frame.
    pub open spec fn define(self, k: Seq<char>, v: ValueV) -> ScopesV {
        ScopesV { top: entries_insert(self.top, k, v), stack: self.stack }
    }
}

impl View for Scopes {
    type V = ScopesV;

    open spec fn view(&self) -> ScopesV {
        ScopesV { top: self.top@, stack: self.scopes@.map_values(|sc: Scope| sc@) }
    }
}

impl Scopes {
    /// Creates a new, empty hierarchy of scopes.
    pub fn new() -> (s: Self)
        ensures
            s.top@ == Seq::<(Seq<char>, ValueV)>::empty(),
            s.scopes@ =~= Seq::<Scope>::empty(),
    {
        Scopes { top: Scope::new(), scopes: Vec::new() }
    }

    /// Enters a new scope: the active scope is saved on the stack and a
    /// fresh empty scope becomes active.
    pub fn enter(&mut self)
        ensures
            final(self).top@ == Seq::<(Seq<char>, ValueV)>::empty(),
            final(self).scopes@ == old(self).scopes@.push(old(self).top),
    {
        let mut fresh = Scope::new();
        core::mem::swap(&mut fresh, &mut self.top);
        self.scopes.push(fresh);
    }

    /// Exits the topmost scope: the most recently saved scope becomes
    /// active again. There must be a saved scope to return to.
    pub fn exit(&mut self)
        requires
            old(self).scopes@.len() > 0,
        ensures
            final(self).top == old(self).scopes@.last(),
            final(self).scopes@ == old(self).scopes@.drop_last(),
    {
        match self.scopes.pop() {
            Some(s) => {
                self.top = s;
            },
            None => {
                proof {
                    assert(false);
                }
            },
        }
    }

    /// Tries to access a variable: the first binding found from the
    /// active scope down, or an unknown-variable error.
    pub fn get<'a>(&'a self, var: &str) -> (r: SpreadSheetResult<&'a Value>)
        ensures
            match r {
                Ok(v) => self@.lookup(var@) == Some(v@),
                Err(e) => self@.lookup(var@) is None && e.msg() == "unknown variable: "@ + var@,
            },
    {
        if let Some(v) = self.top.get(var) {
            return Ok(v);
        }
        let n = self.scopes.len();
        proof {
            assert(self@.stack.take(n as int) =~= self@.stack);
        }
        for i in 0..n
            invariant
                n == self.scopes@.len(),
                entries_lookup(self.top@, var@) is None,
                stack_lookup(self@.stack, var@) == stack_lookup(
                    self@.stack.take((n - i) as int),
                    var@,
                ),
        {
            let idx = n - 1 - i;
            proof {
                assert(self@.stack.take((n - i) as int).last() == self.scopes@[idx as int]@);
                assert(self@.stack.take((n - i) as int).drop_last() =~= self@.stack.take(
                    (n - i - 1) as int));
            }
            if let Some(v) = self.scopes[idx].get(var) {
                return Ok(v);
            }
        }
        proof {
            assert(self@.stack.take(0) =~= Seq::<Seq<(Seq<char>, ValueV)>>::empty());
        }
        Err(unknown_variable(var))
    }
}

impl Default for Scopes {
    /// The default hierarchy is empty.
    fn default() -> (s: Self)
        ensures
            s.top@ == Seq::<(Seq<char>, ValueV)>::empty(),
            s.scopes@ =~= Seq::<Scope>::empty(),
    {
        Scopes::new()
    }
}

/// The error raised when a variable is not found in any scope.
pub fn unknown_variable(var: &str) -> (e: SpreadSheetError)
    ensures
        e.msg() == "unknown variable: "@ + var@,
{
    let mut m = String::from_str("unknown variable: ");
    m.append(var);
    SpreadSheetError::new(m)
}

/// The end of the path segment starting at `i`: the first position at or
/// after `i` holding a dot, or the end of the text.
pub open spec fn seg_end(s: Seq<char>, i: int) -> int
    decreases s.len() - i,
{
    if i < 0 {
        0
    } else if i >= s.len() {
        s.len() as int
    } else if s[i] == '.' {
        i
    } else {
        seg_end(s, i + 1)
    }
}

/// A segment's end lies between its start and the end of the text.
pub proof fn lemma_seg_end(s: Seq<char>, i: int)
    requires
        0 <= i <= s.len(),
    ensures
        i <= seg_end(s, i) <= s.len(),
    decreases s.len() - i,
{
    if i < s.len() && s[i] != '.' {
        lemma_seg_end(s, i + 1);
    }
}

/// A restartable cursor over a dot-delimited identifier tail, yielding
/// successive path segments. Positions count characters.
pub struct PathSplitter<'a> {
    pub path: &'a str,
    pub pos: usize,
}

impl<'a> PathSplitter<'a> {
    /// A cursor at the start of `path`.
    pub fn new(path: &str) -> (p: PathSplitter<'_>)
        ensures
            p.path@ == path@,
            p.pos == 0,
    {
        PathSplitter { path, pos: 0 }
    }

    /// Rewinds the cursor to the start.
    pub fn reset(&mut self)
        ensures
            final(self).path == old(self).path,
            final(self).pos == 0,
    {
        self.pos = 0;
    }

    /// The next path segment: the text up to the next dot or the end.
    /// An empty segment — the cursor standing on a dot, or at the end —
    /// yields `None` and does not advance.
    pub fn next(&mut self) -> (r: Option<&'a str>)
        requires
            old(self).pos <= old(self).path@.len(),
        ensures
            final(self).path == old(self).path,
            final(self).pos <= old(self).path@.len(),
            ({
                let s = old(self).path@;
                let p0 = old(self).pos as int;
                let e = seg_end(s, p0);
                match r {
                    None => e == p0 && final(self).pos == p0,
                    Some(seg) => e > p0 && seg@ == s.subrange(p0, e) && final(self).pos == (
                    if e < s.len() {
                        e + 1
                    } else {
                        e
                    }),
                }
            }),
    {
        let ghost s = self.path@;
        let start = self.pos;
        let n = self.path.unicode_len();
        let mut end = start;
        while end < n && self.path.get_char(end) != '.'
            invariant
                start <= end <= n,
                n == s.len(),
                self.path@ == s,
                self.pos == start,
                seg_end(s, start as int) == seg_end(s, end as int),
            decreases n - end,
        {
            proof {
                assert(seg_end(s, end as int) == seg_end(s, end + 1));
            }
            end = end + 1;
        }
        proof {
            assert(seg_end(s, end as int) == end as int);
        }
        self.pos = end;
        if start == end {
            None
        } else {
            if self.pos < n {
                self.pos = self.pos + 1;
            }
            Some(self.path.substring_char(start, end))
        }
    }
}

/// Descending from the value `v` through the path segments of `s`
/// starting at `pos`: an object descends by key, an array by an all-digit
/// index; an exhausted or empty segment yields the value reached; any
/// failing step yields nothing.
pub open spec fn resolve_from(v: ValueV, s: Seq<char>, pos: int) -> Option<ValueV>
    decreases s.len() - pos,
{
    if pos < 0 || pos >= s.len() {
        Some(v)
    } else {
        let e = seg_end(s, pos);
        if e <= pos {
            Some(v)
        } else {
            let seg = s.subrange(pos, e);
            let newpos = if e < s.len() {
                e + 1
            } else {
                e
            };
            proof {
                lemma_seg_end(s, pos);
            }
            match v {
                ValueV::Object(es) => match entries_lookup(es, seg) {
                    Some(child) => resolve_from(child, s, newpos),
                    None => None,
                },
                ValueV::Array(items) => match spec_parse_usize(seg) {
                    Some(idx) => if idx < items.len() {
                        resolve_from(items[idx as int], s, newpos)
                    } else {
                        None
                    },
                    None => None,
                },
                _ => None,
            }
        }
    }
}

impl Value {
    /// Descends from this value through the cursor's remaining path
    /// segments, by the rules of `resolve_from`.
    pub fn resolve<'a>(&'a self, path: &mut PathSplitter) -> (r: Option<&'a Value>)
        requires
            old(path).pos <= old(path).path@.len(),
        ensures
            final(path).path == old(path).path,
            final(path).pos <= old(path).path@.len(),
            match r {
                Some(v) => resolve_from(self@, old(path).path@, old(path).pos as int) == Some(
                    v@,
                ),
                None => resolve_from(self@, old(path).path@, old(path).pos as int) is None,
            },
        decreases path.path@.len() - path.pos,
    {
        match path.next() {
            None => Some(self),
            Some(name) => match self {
                Value::Object(m) => match strmap_get(&*(*m), name) {
                    Some(child) => child.resolve(path),
                    None => None,
                },
                Value::Array(arr) => match parse_usize(name) {
                    Some(idx) => {
                        let v: &Vec<Value> = &*(*arr);
                        proof {
                            crate::values::lemma_seq_views_index(arr@);
                        }
                        if idx < v.len() {
                            v[idx].resolve(path)
                        } else {
                            None
                        }
                    },
                    None => None,
                },
                _ => None,
            },
        }
    }
}

/// Resolving a sigil-prefixed dotted identifier against the scopes: the
/// first segment names a variable, and the remaining segments descend
/// into its value.
pub open spec fn spec_resolve_identifier(g: ScopesV, id: Seq<char>) -> Option<ValueV> {
    let tail = id.skip(1);
    let e = seg_end(tail, 0);
    if e <= 0 {
        None
    } else {
        let first = tail.subrange(0, e);
        let newpos = if e < tail.len() {
            e + 1
        } else {
            e
        };
        match g.lookup(first) {
            Some(v) => resolve_from(v, tail, newpos),
            None => None,
        }
    }
}

/// Resolving a primary expression: a literal is itself; an identifier
/// resolves through the scopes, or to nothing.
pub open spec fn spec_resolve(g: ScopesV, e: ExpressionV) -> Option<ValueV> {
    match e {
        ExpressionV::Value(v) => Some(v),
        ExpressionV::Identifier(id) => spec_resolve_identifier(g, id),
    }
}

impl Scopes {
    /// Resolves a sigil-prefixed dotted identifier, by the rules of
    /// `spec_resolve_identifier`.
    pub fn resolve_identifier<'a>(&'a self, id: &str) -> (r: Option<&'a Value>)
        requires
            id@.len() >= 1,
        ensures
            match r {
                Some(v) => spec_resolve_identifier(self@, id@) == Some(v@),
                None => spec_resolve_identifier(self@, id@) is None,
            },
    {
        let n = id.unicode_len();
        let tail = id.substring_char(1, n);
        proof {
            assert(tail@ =~= id@.skip(1));
        }
        let mut path = PathSplitter::new(tail);
        match path.next() {
            Some(name) => match self.get(name) {
                Ok(value) => value.resolve(&mut path),
                Err(_) => None,
            },
            None => None,
        }
    }

    /// Resolves a primary expression, by the rules of `spec_resolve`. A
    /// resolved array or object is a cheap shared copy.
    pub fn resolve(&self, expression: Expression) -> (r: Option<Value>)
        requires
            expression@ matches ExpressionV::Identifier(id) ==> id.len() >= 1,
        ensures
            match r {
                Some(v) => spec_resolve(self@, expression@) == Some(v@),
                None => spec_resolve(self@, expression@) is None,
            },
    {
        match expression {
            Expression::Value(v) => Some(v),
            Expression::Identifier(id) => match self.resolve_identifier(id.as_str()) {
                Some(v) => Some(v.clone()),
                None => None,
            },
        }
    }
}

/// Entering a scope and immediately exiting it restores the scope stack
/// exactly: the same frames, the same bindings, the same lookup results,
/// whatever was bound in between.
pub proof fn lemma_enter_exit_restores(g0: ScopesV, bound: Seq<(Seq<char>, ValueV)>)
    ensures
        (ScopesV { top: bound, stack: g0.enter().stack }).exit() == g0,
        forall|k: Seq<char>|
            (ScopesV { top: bound, stack: g0.enter().stack }).exit().lookup(k) == g0.lookup(k),
{
    let g1 = ScopesV { top: bound, stack: g0.enter().stack };
    assert(g1.exit().stack =~= g0.stack);
    assert(g1.exit() == g0);
}

} // verus!
