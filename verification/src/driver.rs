use vstd::prelude::*;
use crate::ast::{Program, ProgramV, StructDef, StructDefV, Constant, ConstantV, Function, FunctionV, Span};
use crate::token::TokenV;
use crate::lexer::{lex, lex_spec, tokens_match};
use crate::grammar::{PCtx, p_program, error_text};
use crate::parser::{Parser, ctx_of};
use crate::text::byte_offset;

verus! {

/// Why a source text could not be read as a program.
#[derive(Debug, PartialEq)]
pub enum FrontError {
    /// Some text matches no token.
    Lexical,
    /// The tokens do not form a program; the message says where and why.
    Syntax(String),
}

pub enum FrontErrorV {
    Lexical,
    Syntax(Seq<char>),
}

impl View for FrontError {
    type V = FrontErrorV;

    open spec fn view(&self) -> FrontErrorV {
        match self {
            FrontError::Lexical => FrontErrorV::Lexical,
            FrontError::Syntax(m) => FrontErrorV::Syntax(m@),
        }
    }
}

/// The parser's input for a lexed source: each token with its byte range.
pub open spec fn lexed_ctx(ts: Seq<(TokenV, int, int)>, src: Seq<char>) -> PCtx {
    PCtx {
        toks: ts.map_values(|t: (TokenV, int, int)| (t.0, Span { start: byte_offset(src, t.1) as usize, end: byte_offset(src, t.2) as usize })),
        src,
    }
}

/// What a source text reads as: its tokens parsed as a program.
pub open spec fn front(src: Seq<char>) -> Result<ProgramV, FrontErrorV> {
    match lex_spec(src) {
        None => Err(FrontErrorV::Lexical),
        Some(ts) => {
            let c = lexed_ctx(ts, src);
            match p_program(c, 0) {
                Ok((p, _)) => Ok(p),
                Err((q, m)) => Err(FrontErrorV::Syntax(error_text(c, q, m))),
            }
        },
    }
}

/// Lexes and parses a source text.
pub fn parse_source(source: &str) -> (r: Result<Program, FrontError>)
    requires
        source@.len() < usize::MAX,
    ensures
        match front(source@) {
            Ok(p) => r matches Ok(x) && x@ == p,
            Err(e) => r matches Err(x) && x@ == e,
        },
{
    let tokens = match lex(source) {
        Ok(t) => t,
        Err(_) => return Err(FrontError::Lexical),
    };
    let ghost ts = lex_spec(source@)->Some_0;
    proof {
        assert(tokens_match(tokens@, source@, ts));
        assert(ctx_of(tokens@, source@).toks =~= lexed_ctx(ts, source@).toks);
    }
    let mut parser = Parser::new(tokens, String::from_str(source));
    match parser.parse_program() {
        Ok(p) => Ok(p),
        Err(m) => Err(FrontError::Syntax(m)),
    }
}

/// The message for a main source that cannot be read as a program.
pub open spec fn source_error_text(e: FrontErrorV) -> Seq<char> {
    match e {
        FrontErrorV::Lexical => "Lexical error: unexpected characters in source"@,
        FrontErrorV::Syntax(m) => "Parse error: "@ + m,
    }
}

/// The message for an imported file that cannot be read as a program.
pub open spec fn import_error_text(path: Seq<char>, e: FrontErrorV) -> Seq<char> {
    match e {
        FrontErrorV::Lexical => "Lexical error in import '"@ + path + "'"@,
        FrontErrorV::Syntax(m) => "Parse error in import '"@ + path + "': "@ + m,
    }
}

/// The message for a main source that cannot be read as a program.
pub fn source_error(e: &FrontError) -> (m: String)
    ensures
        m@ == source_error_text(e@),
{
    match e {
        FrontError::Lexical => String::from_str("Lexical error: unexpected characters in source"),
        FrontError::Syntax(msg) => {
            let mut m = String::from_str("Parse error: ");
            m.append(msg.as_str());
            m
        },
    }
}

/// The message for an imported file that cannot be read as a program.
pub fn import_error(path: &String, e: &FrontError) -> (m: String)
    ensures
        m@ == import_error_text(path@, e@),
{
    match e {
        FrontError::Lexical => {
            let mut m = String::from_str("Lexical error in import '");
            m.append(path.as_str());
            m.append("'");
            m
        },
        FrontError::Syntax(msg) => {
            let mut m = String::from_str("Parse error in import '");
            m.append(path.as_str());
            m.append("': ");
            m.append(msg.as_str());
            m
        },
    }
}

/// Records an import path as loaded. Returns whether it was new; a path
/// already recorded is left as it was.
pub fn mark_loaded(loaded: &mut Vec<String>, path: &String) -> (fresh: bool)
    ensures
        fresh == !old(loaded)@.map_values(|s: String| s@).contains(path@),
        final(loaded)@.map_values(|s: String| s@) == if fresh {
            old(loaded)@.map_values(|s: String| s@).push(path@)
        } else {
            old(loaded)@.map_values(|s: String| s@)
        },
{
    let ghost names = loaded@.map_values(|s: String| s@);
    let mut i: usize = 0;
    while i < loaded.len()
        invariant
            i <= loaded.len(),
            names == loaded@.map_values(|s: String| s@),
            loaded@ == old(loaded)@,
            forall|j: int| 0 <= j < i ==> names[j] != path@,
        decreases loaded.len() - i,
    {
        if loaded[i] == *path {
            assert(names[i as int] == path@);
            return false;
        }
        i = i + 1;
    }
    loaded.push(path.clone());
    assert(loaded@.map_values(|s: String| s@) =~= names.push(path@));
    true
}

/// An item that a program defines under a name: a struct, a constant or a function.
pub trait Named: View + Sized {
    spec fn item_name(v: Self::V) -> Seq<char>;

    fn defined_name(&self) -> (r: &String)
        ensures
            r@ == Self::item_name(self@);
}

impl Named for StructDef {
    open spec fn item_name(v: StructDefV) -> Seq<char> {
        v.name
    }

    fn defined_name(&self) -> (r: &String) {
        &self.name
    }
}

impl Named for Constant {
    open spec fn item_name(v: ConstantV) -> Seq<char> {
        v.name
    }

    fn defined_name(&self) -> (r: &String) {
        &self.name
    }
}

impl Named for Function {
    open spec fn item_name(v: FunctionV) -> Seq<char> {
        v.name
    }

    fn defined_name(&self) -> (r: &String) {
        &self.name
    }
}

/// The names of some items.
pub open spec fn names_of<T: Named>(items: Seq<T::V>) -> Seq<Seq<char>> {
    items.map_values(|v: T::V| T::item_name(v))
}

/// The message for an imported item whose name is already taken.
pub open spec fn conflict_text(kind: Seq<char>, name: Seq<char>) -> Seq<char> {
    kind + " '"@ + name + "' already defined (import conflict)"@
}

/// Appends imported items to `target` in order, up to the first whose name
/// is already taken, by a target item or an earlier imported one. Gives the
/// items reached and, at such a conflict, its message.
pub open spec fn merge_items<T: Named>(target: Seq<T::V>, items: Seq<T::V>, kind: Seq<char>) -> (Seq<T::V>, Option<Seq<char>>)
    decreases items.len(),
{
    if items.len() == 0 {
        (target, None)
    } else {
        let prev = merge_items::<T>(target, items.drop_last(), kind);
        let x = items.last();
        if prev.1 is Some {
            prev
        } else if names_of::<T>(prev.0).contains(T::item_name(x)) {
            (prev.0, Some(conflict_text(kind, T::item_name(x))))
        } else {
            (prev.0.push(x), None)
        }
    }
}

/// Merging an imported program into `target`: its structs, then its
/// constants, then its functions, stopping at the first name conflict.
/// Imports are left as they are.
pub open spec fn merge_spec(t: ProgramV, i: ProgramV) -> (ProgramV, Option<Seq<char>>) {
    let s = merge_items::<StructDef>(t.structs, i.structs, "Struct"@);
    let c = merge_items::<Constant>(t.constants, i.constants, "Constant"@);
    let f = merge_items::<Function>(t.functions, i.functions, "Function"@);
    if s.1 is Some {
        (ProgramV { structs: s.0, ..t }, s.1)
    } else if c.1 is Some {
        (ProgramV { structs: s.0, constants: c.0, ..t }, c.1)
    } else {
        (ProgramV { structs: s.0, constants: c.0, functions: f.0, ..t }, f.1)
    }
}

proof fn lemma_merge_items_prefix_err<T: Named>(target: Seq<T::V>, items: Seq<T::V>, k: int, kind: Seq<char>)
    requires
        0 <= k <= items.len(),
        merge_items::<T>(target, items.take(k), kind).1 is Some,
    ensures
        merge_items::<T>(target, items, kind) == merge_items::<T>(target, items.take(k), kind),
    decreases items.len(),
{
    if items.len() > k {
        assert(items.drop_last().take(k) =~= items.take(k));
        lemma_merge_items_prefix_err::<T>(target, items.drop_last(), k, kind);
    } else {
        assert(items.take(k) =~= items);
    }
}

/// Moves imported items into `target` (see `merge_items`).
fn merge_into<T: Named>(target: &mut Vec<T>, items: Vec<T>, kind: &str) -> (r: Result<(), String>)
    ensures
        final(target)@.map_values(|x: T| x@) == merge_items::<T>(old(target)@.map_values(|x: T| x@), items@.map_values(|x: T| x@), kind@).0,
        match merge_items::<T>(old(target)@.map_values(|x: T| x@), items@.map_values(|x: T| x@), kind@).1 {
            None => r is Ok,
            Some(m) => r matches Err(e) && e@ == m,
        },
{
    let ghost t0 = target@.map_values(|x: T| x@);
    let ghost iv = items@.map_values(|x: T| x@);
    let mut rest = items;
    let ghost mut k: int = 0;
    assert(iv.take(0) =~= Seq::<T::V>::empty());
    while rest.len() > 0
        invariant
            0 <= k <= iv.len(),
            rest@.len() == iv.len() - k,
            iv == items@.map_values(|x: T| x@),
            rest@.map_values(|x: T| x@) == iv.skip(k),
            t0 == old(target)@.map_values(|x: T| x@),
            merge_items::<T>(t0, iv.take(k), kind@).1 is None,
            target@.map_values(|x: T| x@) == merge_items::<T>(t0, iv.take(k), kind@).0,
        decreases rest.len(),
    {
        let ghost before = rest@;
        let x = rest.remove(0);
        proof {
            assert(before.map_values(|y: T| y@)[0] == x@);
            assert(rest@ == before.remove(0));
            let rv = rest@.map_values(|y: T| y@);
            assert forall|m: int| 0 <= m < rest@.len() implies #[trigger] rv[m] == iv.skip(k + 1)[m] by {
                assert(rest@[m] == before[m + 1]);
                assert(before.map_values(|y: T| y@)[m + 1] == iv.skip(k)[m + 1]);
            }
            assert(rv =~= iv.skip(k + 1));
            assert(iv.take(k + 1).drop_last() =~= iv.take(k));
            assert(iv.take(k + 1).last() == x@);
        }
        let ghost tv = target@.map_values(|y: T| y@);
        let name = x.defined_name();
        let mut j: usize = 0;
        #[verifier::loop_isolation(false)]
        while j < target.len()
            invariant
                j <= target.len(),
                tv == target@.map_values(|y: T| y@),
                name@ == T::item_name(x@),
                forall|m: int| 0 <= m < j ==> names_of::<T>(tv)[m] != name@,
            decreases target.len() - j,
        {
            if *target[j].defined_name() == *name {
                proof {
                    assert(names_of::<T>(tv)[j as int] == name@);
                    assert(names_of::<T>(tv).contains(name@));
                    lemma_merge_items_prefix_err::<T>(t0, iv, k + 1, kind@);
                }
                let mut m = String::from_str(kind);
                m.append(" '");
                m.append(name.as_str());
                m.append("' already defined (import conflict)");
                return Err(m);
            }
            j = j + 1;
        }
        assert(!names_of::<T>(tv).contains(name@));
        target.push(x);
        assert(target@.map_values(|y: T| y@) =~= tv.push(x@));
        proof { k = k + 1; }
    }
    assert(iv.take(k) =~= iv);
    Ok(())
}

/// Merges an imported program into `target` (see `merge_spec`).
pub fn merge_programs(target: &mut Program, imported: Program) -> (r: Result<(), String>)
    ensures
        final(target)@ == merge_spec(old(target)@, imported@).0,
        match merge_spec(old(target)@, imported@).1 {
            None => r is Ok,
            Some(m) => r matches Err(e) && e@ == m,
        },
{
    let Program { imports: _, structs, constants, functions } = imported;
    merge_into(&mut target.structs, structs, "Struct")?;
    merge_into(&mut target.constants, constants, "Constant")?;
    merge_into(&mut target.functions, functions, "Function")?;
    Ok(())
}

/// No name occurs twice.
pub open spec fn distinct_names(ns: Seq<Seq<char>>) -> bool {
    forall|a: int, b: int| 0 <= a < b < ns.len() ==> ns[a] != ns[b]
}

/// Within each kind of item (structs, constants, functions), no name occurs twice.
pub open spec fn program_names_distinct(p: ProgramV) -> bool {
    &&& distinct_names(names_of::<StructDef>(p.structs))
    &&& distinct_names(names_of::<Constant>(p.constants))
    &&& distinct_names(names_of::<Function>(p.functions))
}

proof fn lemma_names_push<T: Named>(s: Seq<T::V>, x: T::V)
    ensures
        names_of::<T>(s.push(x)) == names_of::<T>(s).push(T::item_name(x)),
{
    assert(names_of::<T>(s.push(x)) =~= names_of::<T>(s).push(T::item_name(x)));
}

proof fn lemma_distinct_push(ns: Seq<Seq<char>>, n: Seq<char>)
    ensures
        distinct_names(ns.push(n)) <==> (distinct_names(ns) && !ns.contains(n)),
{
    let m = ns.push(n);
    if distinct_names(m) {
        assert forall|a: int, b: int| 0 <= a < b < ns.len() implies ns[a] != ns[b] by {
            assert(m[a] == ns[a] && m[b] == ns[b]);
        }
        if ns.contains(n) {
            let a = choose|a: int| 0 <= a < ns.len() && ns[a] == n;
            assert(m[a] == m[ns.len() as int]);
        }
    }
    if distinct_names(ns) && !ns.contains(n) {
        assert forall|a: int, b: int| 0 <= a < b < m.len() implies m[a] != m[b] by {
            if b == ns.len() {
                assert(m[a] == ns[a]);
                assert(m[b] == n);
            } else {
                assert(m[a] == ns[a] && m[b] == ns[b]);
            }
        }
    }
}

/// The facts of one merge: the target is kept as a prefix; without a
/// conflict the items are all appended; and, when the target's names are
/// distinct, a conflict is reported exactly when the combined names repeat,
/// while the merged names stay distinct either way.
pub proof fn merge_items_facts<T: Named>(target: Seq<T::V>, items: Seq<T::V>, kind: Seq<char>)
    ensures
        merge_items::<T>(target, items, kind).0.len() >= target.len(),
        merge_items::<T>(target, items, kind).0.take(target.len() as int) == target,
        merge_items::<T>(target, items, kind).1 is None ==> merge_items::<T>(target, items, kind).0 == target + items,
        distinct_names(names_of::<T>(target)) ==> distinct_names(names_of::<T>(merge_items::<T>(target, items, kind).0)),
        distinct_names(names_of::<T>(target)) ==> (merge_items::<T>(target, items, kind).1 is None <==> distinct_names(
            names_of::<T>(target + items),
        )),
    decreases items.len(),
{
    if items.len() == 0 {
        assert(target.take(target.len() as int) =~= target);
        assert(target + items =~= target);
    } else {
        let prev = merge_items::<T>(target, items.drop_last(), kind);
        let x = items.last();
        merge_items_facts::<T>(target, items.drop_last(), kind);
        assert(target + items =~= (target + items.drop_last()).push(x));
        lemma_names_push::<T>(target + items.drop_last(), x);
        lemma_distinct_push(names_of::<T>(target + items.drop_last()), T::item_name(x));
        if prev.1 is None {
            lemma_names_push::<T>(prev.0, x);
            lemma_distinct_push(names_of::<T>(prev.0), T::item_name(x));
            assert(prev.0.push(x).take(target.len() as int) =~= prev.0.take(target.len() as int));
        } else if distinct_names(names_of::<T>(target)) {
            // a repeat among the earlier names is still a repeat
            assert(!distinct_names(names_of::<T>(target + items.drop_last())));
        }
    }
}

/// Merging a program keeps the names of each kind of item distinct, and the
/// target's items stay first, in order.
pub proof fn merge_keeps_names_distinct(t: ProgramV, i: ProgramV)
    requires
        program_names_distinct(t),
    ensures
        program_names_distinct(merge_spec(t, i).0),
        merge_spec(t, i).0.imports == t.imports,
{
    merge_items_facts::<StructDef>(t.structs, i.structs, "Struct"@);
    merge_items_facts::<Constant>(t.constants, i.constants, "Constant"@);
    merge_items_facts::<Function>(t.functions, i.functions, "Function"@);
}

/// A merge without a conflict appends each kind of imported item to the
/// target's, in order; with distinct target names, that happens exactly when
/// the combined names of each kind are distinct.
pub proof fn merge_appends_when_names_differ(t: ProgramV, i: ProgramV)
    ensures
        merge_spec(t, i).1 is None ==> {
            &&& merge_spec(t, i).0.structs == t.structs + i.structs
            &&& merge_spec(t, i).0.constants == t.constants + i.constants
            &&& merge_spec(t, i).0.functions == t.functions + i.functions
            &&& merge_spec(t, i).0.imports == t.imports
        },
        program_names_distinct(t) ==> (merge_spec(t, i).1 is None <==> program_names_distinct(
            ProgramV {
                imports: t.imports,
                structs: t.structs + i.structs,
                constants: t.constants + i.constants,
                functions: t.functions + i.functions,
            },
        )),
{
    merge_items_facts::<StructDef>(t.structs, i.structs, "Struct"@);
    merge_items_facts::<Constant>(t.constants, i.constants, "Constant"@);
    merge_items_facts::<Function>(t.functions, i.functions, "Function"@);
}

/// Recording import paths one at a time keeps the record free of repeats.
pub proof fn loaded_stays_distinct(loaded: Seq<Seq<char>>, path: Seq<char>)
    requires
        distinct_names(loaded),
    ensures
        distinct_names(if !loaded.contains(path) { loaded.push(path) } else { loaded }),
{
    lemma_distinct_push(loaded, path);
}

/// The index of the first path of `pending`, from index `i` on, that is not
/// in `loaded`; the length of `pending` when every one is.
pub open spec fn first_new(pending: Seq<Seq<char>>, loaded: Seq<Seq<char>>, i: int) -> int
    decreases pending.len() - i,
{
    if i < 0 || i >= pending.len() {
        pending.len() as int
    } else if !loaded.contains(pending[i]) {
        i
    } else {
        first_new(pending, loaded, i + 1)
    }
}

/// Takes the next import to load from the front of `pending`: the paths
/// already loaded are dropped, and the first new one is taken and recorded as
/// loaded. `None` when no new path is left, with `pending` emptied.
pub fn next_import(loaded: &mut Vec<String>, pending: &mut Vec<String>) -> (r: Option<String>)
    ensures
        ({
            let p = old(pending)@.map_values(|s: String| s@);
            let l = old(loaded)@.map_values(|s: String| s@);
            let k = first_new(p, l, 0);
            &&& final(pending)@.map_values(|s: String| s@) == p.skip(if k < p.len() { k + 1 } else { k })
            &&& match r {
                Some(path) => k < p.len() && path@ == p[k] && final(loaded)@.map_values(|s: String| s@) == l.push(p[k]),
                None => k == p.len() && final(loaded)@.map_values(|s: String| s@) == l,
            }
        }),
{
    let ghost p = pending@.map_values(|s: String| s@);
    let ghost l = loaded@.map_values(|s: String| s@);
    let ghost mut i: int = 0;
    assert(p.skip(0) =~= p);
    while pending.len() > 0
        invariant
            0 <= i <= p.len(),
            p == old(pending)@.map_values(|s: String| s@),
            l == old(loaded)@.map_values(|s: String| s@),
            loaded@.map_values(|s: String| s@) == l,
            pending@.map_values(|s: String| s@) == p.skip(i),
            pending@.len() == p.len() - i,
            first_new(p, l, 0) == first_new(p, l, i),
        decreases pending.len(),
    {
        let ghost before = pending@;
        let path = pending.remove(0);
        proof {
            assert(before.map_values(|s: String| s@)[0] == path@);
            assert(p.skip(i)[0] == p[i]);
            let rv = pending@.map_values(|s: String| s@);
            assert forall|m: int| 0 <= m < rv.len() implies #[trigger] rv[m] == p.skip(i + 1)[m] by {
                assert(pending@[m] == before[m + 1]);
                assert(before.map_values(|s: String| s@)[m + 1] == p.skip(i)[m + 1]);
            }
            assert(rv =~= p.skip(i + 1));
        }
        if mark_loaded(loaded, &path) {
            return Some(path);
        }
        proof { i = i + 1; }
    }
    proof {
        assert(p.skip(p.len() as int) =~= Seq::<Seq<char>>::empty());
    }
    None
}

/// The import taken next is the first pending path not yet loaded: every
/// path before it was loaded already, and it was not.
pub proof fn next_import_is_first_new(pending: Seq<Seq<char>>, loaded: Seq<Seq<char>>, i: int)
    requires
        0 <= i <= pending.len(),
    ensures
        i <= first_new(pending, loaded, i) <= pending.len(),
        first_new(pending, loaded, i) < pending.len() ==> !loaded.contains(pending[first_new(pending, loaded, i)]),
        forall|j: int| i <= j < first_new(pending, loaded, i) ==> loaded.contains(#[trigger] pending[j]),
    decreases pending.len() - i,
{
    if i < pending.len() && loaded.contains(pending[i]) {
        next_import_is_first_new(pending, loaded, i + 1);
    }
}

/// Taking imports one at a time loads each path at most once: the record of
/// loaded paths stays free of repeats, and a taken path was not loaded before.
pub proof fn imports_load_once(pending: Seq<Seq<char>>, loaded: Seq<Seq<char>>)
    requires
        distinct_names(loaded),
    ensures
        first_new(pending, loaded, 0) < pending.len() ==> {
            &&& !loaded.contains(pending[first_new(pending, loaded, 0)])
            &&& distinct_names(loaded.push(pending[first_new(pending, loaded, 0)]))
        },
{
    next_import_is_first_new(pending, loaded, 0);
    let k = first_new(pending, loaded, 0);
    if k < pending.len() {
        lemma_distinct_push(loaded, pending[k]);
    }
}

} // verus!
