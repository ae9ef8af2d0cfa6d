//! The tree walker and rewriter: visits every node of a document, recognizes
//! math nodes, renders their TeX source through the engine, and replaces each
//! one with a raw HTML node, leaving every other node structurally intact.

use vstd::prelude::*;
use crate::doc::DocValue;
use crate::doc::SpecDoc;
use crate::doc::docs_model;
use crate::doc::fields_model;
use crate::doc::view_of_doc;
use crate::doc::spec_lookup;
use crate::doc::lookup_field;
use crate::doc::lemma_docs_model;
use crate::doc::lemma_fields_model;
use crate::options::OptsModel;
use crate::options::RenderOptions;
use crate::engine::spec_render;
use crate::engine::render_tex;

verus! {

/// Why a run fails: a node tagged as math without the expected shape, or a
/// TeX source the engine rejects. Either way the whole walk is abandoned:
/// no document with a half-rewritten node is ever produced.
#[derive(Debug)]
pub enum RewriteError {
    Schema(String),
    Render(String),
}

/// The kind of a failure, in the model.
pub enum FailKind {
    Schema,
    Render,
}

impl RewriteError {
    /// The kind of this failure.
    pub open spec fn kind(&self) -> FailKind {
        match self {
            RewriteError::Schema(_) => FailKind::Schema,
            RewriteError::Render(_) => FailKind::Render,
        }
    }

    /// A readable diagnostic for the failure.
    pub fn message(&self) -> (r: String)
        ensures
            match self {
                RewriteError::Schema(s) => r@ == s@,
                RewriteError::Render(s) => r@ == s@,
            },
    {
        match self {
            RewriteError::Schema(s) => s.clone(),
            RewriteError::Render(s) => s.clone(),
        }
    }
}

/// Whether an object's fields carry the math tag: a field `t` whose first
/// binding is the string `"Math"`.
pub open spec fn spec_is_math_tagged(fields: Seq<(Seq<char>, SpecDoc)>) -> bool {
    spec_lookup(fields, "t"@) == Some(SpecDoc::Str("Math"@))
}

/// The raw HTML node that replaces a rendered math node: exactly two fields,
/// the tag and the content pair.
pub open spec fn raw_inline(html: Seq<char>) -> SpecDoc {
    SpecDoc::Obj(
        seq![
            ("t"@, SpecDoc::Str("RawInline"@)),
            ("c"@, SpecDoc::Arr(seq![SpecDoc::Str("html"@), SpecDoc::Str(html)])),
        ],
    )
}

/// What the render-and-replace step yields on a math-tagged object: the
/// style discriminator is read from `c[0].t`, the source from `c[1]`; a
/// missing or wrong-typed piece is a schema failure, a rejected source a
/// render failure, and otherwise the node becomes a raw HTML node. Display
/// mode is on exactly for the `"DisplayMath"` discriminator.
pub open spec fn spec_replace(fields: Seq<(Seq<char>, SpecDoc)>, o: OptsModel) -> Result<
    SpecDoc,
    FailKind,
> {
    match spec_lookup(fields, "c"@) {
        Some(SpecDoc::Arr(items)) => if items.len() < 1 {
            Err(FailKind::Schema)
        } else {
            match items[0] {
                SpecDoc::Obj(sf) => match spec_lookup(sf, "t"@) {
                    Some(style) => if items.len() < 2 {
                        Err(FailKind::Schema)
                    } else {
                        match items[1] {
                            SpecDoc::Str(tex) => match spec_render(
                                tex,
                                style == SpecDoc::Str("DisplayMath"@),
                                o,
                            ) {
                                Some(h) => Ok(raw_inline(h)),
                                None => Err(FailKind::Render),
                            },
                            _ => Err(FailKind::Schema),
                        }
                    },
                    None => Err(FailKind::Schema),
                },
                _ => Err(FailKind::Schema),
            }
        },
        _ => Err(FailKind::Schema),
    }
}

/// What rewriting a document means: arrays and plain objects keep their
/// shape with every child rewritten in order, math-tagged objects go through
/// the render-and-replace step without descending into their content, and
/// scalars stay as they are. The first failure aborts the whole walk.
pub open spec fn spec_rewrite(v: SpecDoc, o: OptsModel) -> Result<SpecDoc, FailKind>
    decreases v,
{
    match v {
        SpecDoc::Arr(elems) => match spec_rewrite_elems(elems, o) {
            Ok(ws) => Ok(SpecDoc::Arr(ws)),
            Err(e) => Err(e),
        },
        SpecDoc::Obj(fields) => if spec_is_math_tagged(fields) {
            spec_replace(fields, o)
        } else {
            match spec_rewrite_fields(fields, o) {
                Ok(ws) => Ok(SpecDoc::Obj(ws)),
                Err(e) => Err(e),
            }
        },
        _ => Ok(v),
    }
}

/// Rewrites the elements of an array in order, stopping at the first failure.
pub open spec fn spec_rewrite_elems(elems: Seq<SpecDoc>, o: OptsModel) -> Result<
    Seq<SpecDoc>,
    FailKind,
>
    decreases elems,
{
    if elems.len() == 0 {
        Ok(Seq::empty())
    } else {
        match spec_rewrite(elems[0], o) {
            Err(e) => Err(e),
            Ok(w) => match spec_rewrite_elems(elems.subrange(1, elems.len() as int), o) {
                Ok(ws) => Ok(seq![w] + ws),
                Err(e) => Err(e),
            },
        }
    }
}

/// Rewrites the field values of a plain object in order, keeping every key,
/// stopping at the first failure.
pub open spec fn spec_rewrite_fields(fields: Seq<(Seq<char>, SpecDoc)>, o: OptsModel) -> Result<
    Seq<(Seq<char>, SpecDoc)>,
    FailKind,
>
    decreases fields,
{
    if fields.len() == 0 {
        Ok(Seq::empty())
    } else {
        match spec_rewrite(fields[0].1, o) {
            Err(e) => Err(e),
            Ok(w) => match spec_rewrite_fields(fields.subrange(1, fields.len() as int), o) {
                Ok(ws) => Ok(seq![(fields[0].0, w)] + ws),
                Err(e) => Err(e),
            },
        }
    }
}

/// Whether an object carries the math tag.
fn is_math_tagged(fields: &Vec<(String, DocValue)>) -> (r: bool)
    ensures
        r == spec_is_math_tagged(fields_model(fields@)),
{
    match lookup_field(fields, &"t".to_owned()) {
        Some(d) => match d {
            DocValue::Str(s) => *s == "Math".to_owned(),
            DocValue::Null => false,
            DocValue::Bool(_) => false,
            DocValue::Num(_) => false,
            DocValue::Arr(_) => false,
            DocValue::Obj(_) => false,
        },
        None => false,
    }
}

/// One suspended array rewrite: the elements already rewritten, and those
/// still to be walked, in order.
struct ArrFrame {
    done: Vec<DocValue>,
    rest: Vec<DocValue>,
}

/// What one suspended array yields once the value in its hole is known:
/// a failure passes through, a finished value is framed by the rewritten
/// prefix and the rewrite of the remaining elements.
spec fn frame_out(
    f: ArrFrame,
    hole: Result<SpecDoc, FailKind>,
    o: OptsModel,
) -> Result<SpecDoc, FailKind> {
    match hole {
        Err(e) => Err(e),
        Ok(w) => match spec_rewrite_elems(docs_model(f.rest@), o) {
            Err(e) => Err(e),
            Ok(ws) => Ok(SpecDoc::Arr(docs_model(f.done@) + seq![w] + ws)),
        },
    }
}

/// The document that a whole stack of suspended arrays yields once the value
/// in the innermost hole is known.
spec fn unwind(
    stack: Seq<ArrFrame>,
    hole: Result<SpecDoc, FailKind>,
    o: OptsModel,
) -> Result<SpecDoc, FailKind>
    decreases stack.len(),
{
    if stack.len() == 0 {
        hole
    } else {
        unwind(stack.drop_last(), frame_out(stack.last(), hole, o), o)
    }
}

/// A failure in the hole is the failure of the whole stack.
proof fn lemma_unwind_err(stack: Seq<ArrFrame>, k: FailKind, o: OptsModel)
    ensures
        unwind(stack, Err(k), o) == Err::<SpecDoc, FailKind>(k),
    decreases stack.len(),
{
    if stack.len() > 0 {
        lemma_unwind_err(stack.drop_last(), k, o);
    }
}

/// Suspending one more array composes its yield with the stack's.
proof fn lemma_unwind_push(
    stack: Seq<ArrFrame>,
    f: ArrFrame,
    hole: Result<SpecDoc, FailKind>,
    o: OptsModel,
)
    ensures
        unwind(stack.push(f), hole, o) == unwind(stack, frame_out(f, hole, o), o),
{
    assert(stack.push(f).drop_last() =~= stack);
    assert(stack.push(f).last() == f);
}

/// The array weight of a value: how many array nodes the iterative walk has
/// still to open below it, counting the value itself.
spec fn size_of(v: DocValue) -> nat
    decreases v,
{
    match v {
        DocValue::Arr(elems) => 1 + size_of_seq(elems@),
        _ => 1,
    }
}

/// The array weight of a list of values.
spec fn size_of_seq(s: Seq<DocValue>) -> nat
    decreases s,
{
    if s.len() == 0 {
        0nat
    } else {
        size_of(s[0]) + size_of_seq(s.subrange(1, s.len() as int))
    }
}

/// The array weight still suspended on the stack.
spec fn stack_size(st: Seq<ArrFrame>) -> nat
    decreases st.len(),
{
    if st.len() == 0 {
        0nat
    } else {
        stack_size(st.drop_last()) + size_of_seq(st.last().rest@)
    }
}

/// Suspending one more array adds the weight of its remaining elements.
proof fn lemma_stack_size_push(st: Seq<ArrFrame>, f: ArrFrame)
    ensures
        stack_size(st.push(f)) == stack_size(st) + size_of_seq(f.rest@),
{
    assert(st.push(f).drop_last() =~= st);
    assert(st.push(f).last() == f);
}

/// Where the walk stands: descending into a value, or carrying a finished
/// piece back up.
enum Phase {
    Down(DocValue),
    Up(DocValue),
}

/// The array weight still to be opened in the current phase.
spec fn phase_weight(p: Phase) -> nat {
    match p {
        Phase::Down(cur) => size_of(cur),
        Phase::Up(_) => 0,
    }
}

/// Descending ranks below ascending, so that turning to descend counts as
/// progress.
spec fn phase_idx(p: Phase) -> nat {
    match p {
        Phase::Down(_) => 0,
        Phase::Up(_) => 1,
    }
}

/// Rewrites one document value; the whole document on the outermost call.
///
/// Arrays are walked with an explicit stack of suspended frames rather than
/// by recursion, so the nesting depth of arrays never deepens the call
/// stack; only object nesting recurses.
#[verifier::loop_isolation(false)]
#[verifier::rlimit(100)]
pub fn rewrite(doc: DocValue, opts: &RenderOptions) -> (r: Result<DocValue, RewriteError>)
    ensures
        match spec_rewrite(doc@, opts@) {
            Ok(w) => r matches Ok(d) && d@ == w,
            Err(k) => r matches Err(e) && e.kind() == k,
        },
    decreases doc, 2nat,
{
    let ghost doc0 = doc;
    let ghost o = opts@;
    let mut stack: Vec<ArrFrame> = Vec::new();
    let mut mode = Phase::Down(doc);
    loop
        invariant
            o == opts@,
            mode matches Phase::Down(cur) ==> unwind(stack@, spec_rewrite(cur@, o), o)
                == spec_rewrite(doc0@, o) && (cur == doc0 || decreases_to!(doc0 => cur)),
            mode matches Phase::Up(p) ==> unwind(stack@, Ok(p@), o) == spec_rewrite(doc0@, o),
            forall|i: int, j: int|
                0 <= i < stack@.len() && 0 <= j < stack@[i].rest@.len() ==> decreases_to!(
                    doc0 => #[trigger] stack@[i].rest@[j]),
        decreases phase_weight(mode) + stack_size(stack@), stack@.len(), phase_idx(mode),
    {
        let ghost mode0 = mode;
        let ghost stack0 = stack@;
        match mode {
            Phase::Down(cur) => {
                let ghost cur0 = cur;
                match cur {
                    DocValue::Null => {
                        mode = Phase::Up(DocValue::Null);
                    },
                    DocValue::Bool(b) => {
                        mode = Phase::Up(DocValue::Bool(b));
                    },
                    DocValue::Num(n) => {
                        mode = Phase::Up(DocValue::Num(n));
                    },
                    DocValue::Str(t) => {
                        mode = Phase::Up(DocValue::Str(t));
                    },
                    DocValue::Obj(fields) => {
                        proof {
                            assert(decreases_to!(cur0 => cur0->Obj_0));
                            assert(decreases_to!(doc0 => fields));
                        }
                        match rewrite_object(fields, opts) {
                            Ok(p) => {
                                mode = Phase::Up(p);
                            },
                            Err(e) => {
                                proof {
                                    lemma_unwind_err(stack@, e.kind(), o);
                                }
                                return Err(e);
                            },
                        }
                    },
                    DocValue::Arr(elems) => {
                        if elems.len() == 0 {
                            proof {
                                assert(docs_model(elems@) =~= Seq::<SpecDoc>::empty());
                            }
                            mode = Phase::Up(DocValue::Arr(elems));
                        } else {
                            let ghost elems0 = elems@;
                            let mut rest = elems;
                            let first = rest.remove(0);
                            proof {
                                assert(rest@ =~= elems0.subrange(1, elems0.len() as int));
                                lemma_docs_model(elems0);
                                lemma_docs_model(rest@);
                                assert(docs_model(elems0)[0] == view_of_doc(first));
                                assert(docs_model(elems0).subrange(
                                    1,
                                    docs_model(elems0).len() as int,
                                ) =~= docs_model(rest@));
                                assert(docs_model(Seq::<DocValue>::empty())
                                    =~= Seq::<SpecDoc>::empty());
                            }
                            let f = ArrFrame { done: Vec::new(), rest };
                            proof {
                                let hole = spec_rewrite(view_of_doc(first), o);
                                if hole is Ok {
                                    let w = hole->Ok_0;
                                    if spec_rewrite_elems(docs_model(f.rest@), o) is Ok {
                                        let ws = spec_rewrite_elems(docs_model(f.rest@), o)->Ok_0;
                                        assert(docs_model(f.done@) + seq![w] + ws =~= seq![w]
                                            + ws);
                                    }
                                }
                                assert(frame_out(f, hole, o) == spec_rewrite(cur0@, o));
                                lemma_unwind_push(stack@, f, hole, o);
                                lemma_stack_size_push(stack@, f);
                                assert(decreases_to!(cur0 => cur0->Arr_0));
                                assert(decreases_to!(cur0->Arr_0 => elems0));
                                assert forall|j: int| 0 <= j < elems0.len() implies decreases_to!(
                                    doc0 => elems0[j]) by {
                                    assert(decreases_to!(elems0 => elems0[j]));
                                }
                            }
                            stack.push(f);
                            mode = Phase::Down(first);
                        }
                    },
                }
            },
            Phase::Up(piece) => {
                let ghost piece0 = piece;
                match stack.pop() {
                    None => {
                        return Ok(piece);
                    },
                    Some(frame) => {
                        proof {
                            assert(stack0 =~= stack@.push(frame));
                            lemma_unwind_push(stack@, frame, Ok(piece0@), o);
                            lemma_stack_size_push(stack@, frame);
                        }
                        let ghost frame0 = frame;
                        let ArrFrame { mut done, mut rest } = frame;
                        let ghost done0 = done@;
                        done.push(piece);
                        proof {
                            lemma_docs_model(done0);
                            lemma_docs_model(done@);
                            assert(docs_model(done@) =~= docs_model(done0).push(piece0@));
                        }
                        if rest.len() == 0 {
                            proof {
                                assert(docs_model(rest@) =~= Seq::<SpecDoc>::empty());
                                assert(docs_model(done0) + seq![piece0@]
                                    + Seq::<SpecDoc>::empty() =~= docs_model(done@));
                            }
                            mode = Phase::Up(DocValue::Arr(done));
                        } else {
                            let ghost rest0 = rest@;
                            let first = rest.remove(0);
                            proof {
                                assert(rest@ =~= rest0.subrange(1, rest0.len() as int));
                                lemma_docs_model(rest0);
                                lemma_docs_model(rest@);
                                assert(docs_model(rest0)[0] == view_of_doc(first));
                                assert(docs_model(rest0).subrange(
                                    1,
                                    docs_model(rest0).len() as int,
                                ) =~= docs_model(rest@));
                            }
                            let f = ArrFrame { done, rest };
                            proof {
                                let hole = spec_rewrite(view_of_doc(first), o);
                                if hole is Ok {
                                    let w = hole->Ok_0;
                                    if spec_rewrite_elems(docs_model(f.rest@), o) is Ok {
                                        let ws = spec_rewrite_elems(docs_model(f.rest@), o)->Ok_0;
                                        assert(docs_model(f.done@) + seq![w] + ws
                                            =~= docs_model(done0) + seq![piece0@] + (seq![w]
                                            + ws));
                                    }
                                }
                                assert(frame_out(f, hole, o) == frame_out(
                                    frame0,
                                    Ok(piece0@),
                                    o,
                                ));
                                lemma_unwind_push(stack@, f, hole, o);
                                lemma_stack_size_push(stack@, f);
                                assert(forall|j: int|
                                    0 <= j < rest@.len() ==> rest@[j] == rest0[j + 1]);
                            }
                            stack.push(f);
                            mode = Phase::Down(first);
                        }
                    },
                }
            },
        }
    }
}

/// Rewrites every field value of a plain object in order, keeping each key.
#[verifier::loop_isolation(false)]
fn rewrite_fields(fields: Vec<(String, DocValue)>, opts: &RenderOptions) -> (r: Result<
    Vec<(String, DocValue)>,
    RewriteError,
>)
    ensures
        match spec_rewrite_fields(fields_model(fields@), opts@) {
            Ok(ws) => r matches Ok(v) && fields_model(v@) == ws,
            Err(k) => r matches Err(e) && e.kind() == k,
        },
    decreases fields, 0nat,
{
    let ghost fields0 = fields;
    let ghost orig = fields@;
    let mut rest = fields;
    let mut out: Vec<(String, DocValue)> = Vec::new();
    let ghost mut done: Seq<(Seq<char>, SpecDoc)> = Seq::empty();
    proof {
        if let Ok(ws) = spec_rewrite_fields(fields_model(orig), opts@) {
            assert(done + ws =~= ws);
        }
    }
    while rest.len() > 0
        invariant
            fields_model(out@) == done,
            rest@.len() <= orig.len(),
            forall|j: int|
                0 <= j < rest@.len() ==> rest@[j] == orig[orig.len() - rest@.len() + j],
            spec_rewrite_fields(fields_model(orig), opts@) == match spec_rewrite_fields(
                fields_model(rest@),
                opts@,
            ) {
                Ok(more) => Ok::<Seq<(Seq<char>, SpecDoc)>, FailKind>(done + more),
                Err(e) => Err::<Seq<(Seq<char>, SpecDoc)>, FailKind>(e),
            },
        decreases rest.len(),
    {
        let ghost rest_before = rest@;
        let ghost k = orig.len() - rest_before.len();
        let head = rest.remove(0);
        proof {
            assert(rest@ =~= rest_before.subrange(1, rest_before.len() as int));
            assert(head == rest_before[0]);
            assert(head == orig[k]);
            assert(head == fields0@[k]);
            assert(forall|j: int|
                0 <= j < rest@.len() ==> rest@[j] == rest_before[j + 1]);
            assert(decreases_to!(fields0 => fields0@));
            assert(decreases_to!(fields0@ => fields0@[k]));
            assert(decreases_to!(fields0@[k] => fields0@[k].1));
            lemma_fields_model(rest_before);
            lemma_fields_model(rest@);
            assert(fields_model(rest_before).subrange(1, fields_model(rest_before).len() as int)
                =~= fields_model(rest@));
            assert(fields_model(rest_before)[0] == (head.0@, view_of_doc(head.1)));
        }
        let (key, value) = head;
        match rewrite(value, opts) {
            Ok(w) => {
                let ghost out_before = out@;
                let ghost pm = (key@, w@);
                out.push((key, w));
                proof {
                    lemma_fields_model(out_before);
                    lemma_fields_model(out@);
                    assert(fields_model(out@) =~= fields_model(out_before).push(pm));
                    if let Ok(more) = spec_rewrite_fields(fields_model(rest@), opts@) {
                        assert(done.push(pm) + more =~= done + (seq![pm] + more));
                    }
                    done = done.push(pm);
                }
            },
            Err(e) => {
                return Err(e);
            },
        }
    }
    proof {
        assert(done + Seq::<(Seq<char>, SpecDoc)>::empty() =~= done);
    }
    Ok(out)
}

/// Rewrites one object: a math-tagged one goes through render-and-replace,
/// any other has its field values rewritten in place.
fn rewrite_object(fields: Vec<(String, DocValue)>, opts: &RenderOptions) -> (r: Result<
    DocValue,
    RewriteError,
>)
    ensures
        match spec_rewrite(SpecDoc::Obj(fields_model(fields@)), opts@) {
            Ok(w) => r matches Ok(d) && d@ == w,
            Err(k) => r matches Err(e) && e.kind() == k,
        },
    decreases fields, 1nat,
{
    if is_math_tagged(&fields) {
        rewrite_math(&fields, opts)
    } else {
        match rewrite_fields(fields, opts) {
            Ok(fs) => Ok(DocValue::Obj(fs)),
            Err(e) => Err(e),
        }
    }
}

/// The render-and-replace step on a math-tagged object: reads the style
/// discriminator and the TeX source, renders, and builds the raw HTML node.
fn rewrite_math(fields: &Vec<(String, DocValue)>, opts: &RenderOptions) -> (r: Result<
    DocValue,
    RewriteError,
>)
    ensures
        match spec_replace(fields_model(fields@), opts@) {
            Ok(w) => r matches Ok(d) && d@ == w,
            Err(k) => r matches Err(e) && e.kind() == k,
        },
{
    let content = match lookup_field(fields, &"c".to_owned()) {
        Some(c) => c,
        None => {
            return Err(RewriteError::Schema("failed to read field `c`".to_owned()));
        },
    };
    let items = match content {
        DocValue::Arr(items) => items,
        DocValue::Null => {
            return Err(RewriteError::Schema("failed to read math type".to_owned()));
        },
        DocValue::Bool(_) => {
            return Err(RewriteError::Schema("failed to read math type".to_owned()));
        },
        DocValue::Num(_) => {
            return Err(RewriteError::Schema("failed to read math type".to_owned()));
        },
        DocValue::Str(_) => {
            return Err(RewriteError::Schema("failed to read math type".to_owned()));
        },
        DocValue::Obj(_) => {
            return Err(RewriteError::Schema("failed to read math type".to_owned()));
        },
    };
    proof {
        lemma_docs_model(items@);
    }
    if items.len() == 0 {
        return Err(RewriteError::Schema("failed to read math type".to_owned()));
    }
    let style_fields = match &items[0] {
        DocValue::Obj(sf) => sf,
        DocValue::Null => {
            return Err(RewriteError::Schema("failed to read field `t`".to_owned()));
        },
        DocValue::Bool(_) => {
            return Err(RewriteError::Schema("failed to read field `t`".to_owned()));
        },
        DocValue::Num(_) => {
            return Err(RewriteError::Schema("failed to read field `t`".to_owned()));
        },
        DocValue::Str(_) => {
            return Err(RewriteError::Schema("failed to read field `t`".to_owned()));
        },
        DocValue::Arr(_) => {
            return Err(RewriteError::Schema("failed to read field `t`".to_owned()));
        },
    };
    let style = match lookup_field(style_fields, &"t".to_owned()) {
        Some(d) => d,
        None => {
            return Err(RewriteError::Schema("failed to read field `t`".to_owned()));
        },
    };
    let display = match style {
        DocValue::Str(s) => *s == "DisplayMath".to_owned(),
        DocValue::Null => false,
        DocValue::Bool(_) => false,
        DocValue::Num(_) => false,
        DocValue::Arr(_) => false,
        DocValue::Obj(_) => false,
    };
    if items.len() < 2 {
        return Err(RewriteError::Schema("failed to read tex source".to_owned()));
    }
    let tex = match &items[1] {
        DocValue::Str(s) => s,
        DocValue::Null => {
            return Err(RewriteError::Schema("invalid data type".to_owned()));
        },
        DocValue::Bool(_) => {
            return Err(RewriteError::Schema("invalid data type".to_owned()));
        },
        DocValue::Num(_) => {
            return Err(RewriteError::Schema("invalid data type".to_owned()));
        },
        DocValue::Arr(_) => {
            return Err(RewriteError::Schema("invalid data type".to_owned()));
        },
        DocValue::Obj(_) => {
            return Err(RewriteError::Schema("invalid data type".to_owned()));
        },
    };
    match render_tex(tex.as_str(), display, opts) {
        Ok(html) => {
            let mut inner: Vec<DocValue> = Vec::new();
            inner.push(DocValue::Str("html".to_owned()));
            inner.push(DocValue::Str(html));
            let mut obj: Vec<(String, DocValue)> = Vec::new();
            obj.push(("t".to_owned(), DocValue::Str("RawInline".to_owned())));
            obj.push(("c".to_owned(), DocValue::Arr(inner)));
            proof {
                lemma_docs_model(obj@[1].1->Arr_0@);
                lemma_fields_model(obj@);
                assert(docs_model(obj@[1].1->Arr_0@) =~= seq![
                    SpecDoc::Str("html"@),
                    SpecDoc::Str(html@),
                ]);
                assert(fields_model(obj@) =~= raw_inline(html@)->Obj_0);
            }
            Ok(DocValue::Obj(obj))
        },
        Err(msg) => Err(RewriteError::Render(msg)),
    }
}

} // verus!
