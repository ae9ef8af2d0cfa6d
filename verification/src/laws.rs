//! The laws the filter obeys, each proved against the walker's and the
//! resolver's models.

use vstd::prelude::*;
use crate::doc::SpecDoc;
use crate::doc::spec_lookup;
use crate::options::OptsModel;
use crate::walker::FailKind;
use crate::walker::raw_inline;
use crate::walker::spec_is_math_tagged;
use crate::engine::spec_render;
use crate::walker::spec_replace;
use crate::walker::spec_rewrite;
use crate::walker::spec_rewrite_elems;
use crate::walker::spec_rewrite_fields;

verus! {

/// No node of `v` carries the math tag.
pub open spec fn spec_math_free(v: SpecDoc) -> bool
    decreases v,
{
    match v {
        SpecDoc::Arr(elems) => spec_math_free_elems(elems),
        SpecDoc::Obj(fields) => !spec_is_math_tagged(fields) && spec_math_free_fields(fields),
        _ => true,
    }
}

/// No node of any element of `elems` carries the math tag.
pub open spec fn spec_math_free_elems(elems: Seq<SpecDoc>) -> bool
    decreases elems,
{
    elems.len() == 0 || (spec_math_free(elems[0]) && spec_math_free_elems(
        elems.subrange(1, elems.len() as int),
    ))
}

/// No node of any field value of `fields` carries the math tag.
pub open spec fn spec_math_free_fields(fields: Seq<(Seq<char>, SpecDoc)>) -> bool
    decreases fields,
{
    fields.len() == 0 || (spec_math_free(fields[0].1) && spec_math_free_fields(
        fields.subrange(1, fields.len() as int),
    ))
}

/// Rewriting a document without a math-tagged node returns it unchanged,
/// whatever the options.
pub proof fn lemma_math_free_identity(v: SpecDoc, o: OptsModel)
    requires
        spec_math_free(v),
    ensures
        spec_rewrite(v, o) == Ok::<SpecDoc, FailKind>(v),
    decreases v, 0nat,
{
    match v {
        SpecDoc::Arr(elems) => {
            lemma_math_free_identity_elems(elems, o);
        },
        SpecDoc::Obj(fields) => {
            lemma_math_free_identity_fields(fields, o);
        },
        _ => {},
    }
}

/// Rewriting a list of math-free elements returns it unchanged.
pub proof fn lemma_math_free_identity_elems(elems: Seq<SpecDoc>, o: OptsModel)
    requires
        spec_math_free_elems(elems),
    ensures
        spec_rewrite_elems(elems, o) == Ok::<Seq<SpecDoc>, FailKind>(elems),
    decreases elems, 0nat,
{
    if elems.len() == 0 {
        assert(elems =~= Seq::<SpecDoc>::empty());
    } else {
        let rest = elems.subrange(1, elems.len() as int);
        lemma_math_free_identity(elems[0], o);
        lemma_math_free_identity_elems(rest, o);
        assert(seq![elems[0]] + rest =~= elems);
    }
}

/// Rewriting a math-free field list returns it unchanged.
pub proof fn lemma_math_free_identity_fields(fields: Seq<(Seq<char>, SpecDoc)>, o: OptsModel)
    requires
        spec_math_free_fields(fields),
    ensures
        spec_rewrite_fields(fields, o) == Ok::<Seq<(Seq<char>, SpecDoc)>, FailKind>(fields),
    decreases fields, 0nat,
{
    if fields.len() == 0 {
        assert(fields =~= Seq::<(Seq<char>, SpecDoc)>::empty());
    } else {
        let rest = fields.subrange(1, fields.len() as int);
        lemma_math_free_identity(fields[0].1, o);
        lemma_math_free_identity_fields(rest, o);
        assert((fields[0].0, fields[0].1) == fields[0]);
        assert(seq![fields[0]] + rest =~= fields);
    }
}

/// The display flag handed to the engine is on exactly for the
/// `"DisplayMath"` discriminator; any other style renders inline.
pub proof fn lemma_display_mode_mapping(
    fields: Seq<(Seq<char>, SpecDoc)>,
    o: OptsModel,
    style: SpecDoc,
    tex: Seq<char>,
)
    requires
        spec_lookup(fields, "c"@) matches Some(SpecDoc::Arr(items)) && items.len() >= 2 && (
        items[0] matches SpecDoc::Obj(sf) && spec_lookup(sf, "t"@) == Some(style)) && items[1]
            == SpecDoc::Str(tex),
    ensures
        spec_replace(fields, o) == (match spec_render(
            tex,
            style == SpecDoc::Str("DisplayMath"@),
            o,
        ) {
            Some(h) => Ok::<SpecDoc, FailKind>(raw_inline(h)),
            None => Err::<SpecDoc, FailKind>(FailKind::Render),
        }),
{
}

/// A successful render-and-replace step yields a node with exactly two
/// fields, the tag and the content pair; nothing of the original node's
/// field set survives.
pub proof fn lemma_replacement_is_total(fields: Seq<(Seq<char>, SpecDoc)>, o: OptsModel)
    ensures
        spec_replace(fields, o) matches Ok(w) ==> (w matches SpecDoc::Obj(ws) && ws.len() == 2
            && ws[0] == ("t"@, SpecDoc::Str("RawInline"@)) && ws[1].0 == "c"@ && (
        ws[1].1 matches SpecDoc::Arr(pair) && pair.len() == 2 && pair[0] == SpecDoc::Str(
            "html"@,
        ))),
{
}

/// Rewriting never turns another shape into a string, and returns every
/// string unchanged.
pub proof fn lemma_rewrite_str_stability(v: SpecDoc, o: OptsModel)
    ensures
        spec_rewrite(v, o) matches Ok(w) ==> ((w is Str) == (v is Str)) && (v is Str ==> w == v),
{
    match v {
        SpecDoc::Obj(fields) => {
            if spec_is_math_tagged(fields) {
                lemma_replacement_is_total(fields, o);
            }
        },
        _ => {},
    }
}

/// The raw HTML node that replaces a math node carries no math tag itself.
pub proof fn lemma_raw_inline_math_free(h: Seq<char>)
    ensures
        spec_math_free(raw_inline(h)),
{
    reveal_strlit("t");
    reveal_strlit("Math");
    reveal_strlit("RawInline");
    let fs = raw_inline(h)->Obj_0;
    assert(fs[0].0 == "t"@);
    assert("RawInline"@.len() != "Math"@.len());
    assert(spec_lookup(fs, "t"@) == Some(SpecDoc::Str("RawInline"@)));
    assert(!spec_is_math_tagged(fs));
    let pair = fs[1].1->Arr_0;
    reveal_with_fuel(spec_math_free_elems, 3);
    reveal_with_fuel(spec_math_free_fields, 3);
    assert(pair.len() == 2);
    assert(pair[0] == SpecDoc::Str("html"@));
    assert(pair.subrange(1, 2) =~= seq![SpecDoc::Str(h)]);
    assert(pair.subrange(1, 2).subrange(1, 1) =~= Seq::<SpecDoc>::empty());
    assert(spec_math_free_elems(Seq::<SpecDoc>::empty()));
    assert(spec_math_free_elems(pair.subrange(1, 2)));
    assert(spec_math_free_elems(pair));
    assert(spec_math_free(fs[1].1));
    assert(fs.subrange(1, 2) =~= seq![fs[1]]);
    assert(fs.subrange(1, 2).subrange(1, 1) =~= Seq::<(Seq<char>, SpecDoc)>::empty());
    assert(spec_math_free_fields(fs.subrange(1, 2)));
    assert(spec_math_free_fields(fs));
}

/// In a successfully rewritten field list, every key looks up to the
/// rewritten image of what it looked up to before.
pub proof fn lemma_rewrite_fields_lookup(
    fields: Seq<(Seq<char>, SpecDoc)>,
    o: OptsModel,
    key: Seq<char>,
)
    requires
        spec_rewrite_fields(fields, o) is Ok,
    ensures
        match spec_lookup(fields, key) {
            None => spec_lookup(spec_rewrite_fields(fields, o)->Ok_0, key) is None,
            Some(val) => spec_rewrite(val, o) is Ok && spec_lookup(
                spec_rewrite_fields(fields, o)->Ok_0,
                key,
            ) == Some(spec_rewrite(val, o)->Ok_0),
        },
    decreases fields,
{
    if fields.len() > 0 {
        let rest = fields.subrange(1, fields.len() as int);
        let w = spec_rewrite(fields[0].1, o)->Ok_0;
        let ws = spec_rewrite_fields(rest, o)->Ok_0;
        assert(spec_rewrite_fields(fields, o)->Ok_0 == seq![(fields[0].0, w)] + ws);
        assert((seq![(fields[0].0, w)] + ws).subrange(
            1,
            (seq![(fields[0].0, w)] + ws).len() as int,
        ) =~= ws);
        if fields[0].0 == key {
        } else {
            lemma_rewrite_fields_lookup(rest, o, key);
        }
    }
}

/// A rewrite that succeeds leaves no math-tagged node in its result: every
/// well-formed math node became a raw HTML node, and no other node gained
/// the tag.
pub proof fn lemma_no_math_survives(v: SpecDoc, o: OptsModel)
    ensures
        spec_rewrite(v, o) matches Ok(w) ==> spec_math_free(w),
    decreases v, 1nat,
{
    if spec_rewrite(v, o) is Ok {
        match v {
            SpecDoc::Arr(elems) => {
                lemma_no_math_survives_elems(elems, o);
            },
            SpecDoc::Obj(fields) => {
                if spec_is_math_tagged(fields) {
                    assert forall|h: Seq<char>| spec_math_free(raw_inline(h)) by {
                        lemma_raw_inline_math_free(h);
                    }
                } else {
                    lemma_no_math_survives_fields(fields, o);
                    lemma_rewrite_fields_lookup(fields, o, "t"@);
                    match spec_lookup(fields, "t"@) {
                        Some(val) => {
                            lemma_rewrite_str_stability(val, o);
                        },
                        None => {},
                    }
                }
            },
            _ => {},
        }
    }
}

/// A successfully rewritten element list holds no math-tagged node.
pub proof fn lemma_no_math_survives_elems(elems: Seq<SpecDoc>, o: OptsModel)
    ensures
        spec_rewrite_elems(elems, o) matches Ok(ws) ==> spec_math_free_elems(ws),
    decreases elems, 0nat,
{
    if spec_rewrite_elems(elems, o) is Ok && elems.len() > 0 {
        let rest = elems.subrange(1, elems.len() as int);
        lemma_no_math_survives(elems[0], o);
        lemma_no_math_survives_elems(rest, o);
        let w = spec_rewrite(elems[0], o)->Ok_0;
        let ws = spec_rewrite_elems(rest, o)->Ok_0;
        assert((seq![w] + ws).subrange(1, (seq![w] + ws).len() as int) =~= ws);
        assert(spec_math_free_elems(seq![w] + ws));
    }
}

/// A successfully rewritten field list holds no math-tagged node among its
/// values.
pub proof fn lemma_no_math_survives_fields(fields: Seq<(Seq<char>, SpecDoc)>, o: OptsModel)
    ensures
        spec_rewrite_fields(fields, o) matches Ok(ws) ==> spec_math_free_fields(ws),
    decreases fields, 0nat,
{
    if spec_rewrite_fields(fields, o) is Ok && fields.len() > 0 {
        let rest = fields.subrange(1, fields.len() as int);
        lemma_no_math_survives(fields[0].1, o);
        lemma_no_math_survives_fields(rest, o);
        let w = spec_rewrite(fields[0].1, o)->Ok_0;
        let ws = spec_rewrite_fields(rest, o)->Ok_0;
        assert((seq![(fields[0].0, w)] + ws).subrange(
            1,
            (seq![(fields[0].0, w)] + ws).len() as int,
        ) =~= ws);
        assert(spec_math_free_fields(seq![(fields[0].0, w)] + ws));
    }
}

/// No node of `v` carries the raw HTML tag.
pub open spec fn spec_raw_free(v: SpecDoc) -> bool
    decreases v,
{
    match v {
        SpecDoc::Arr(elems) => spec_raw_free_elems(elems),
        SpecDoc::Obj(fields) => spec_lookup(fields, "t"@) != Some(SpecDoc::Str("RawInline"@))
            && spec_raw_free_fields(fields),
        _ => true,
    }
}

/// No node of any element of `elems` carries the raw HTML tag.
pub open spec fn spec_raw_free_elems(elems: Seq<SpecDoc>) -> bool
    decreases elems,
{
    elems.len() == 0 || (spec_raw_free(elems[0]) && spec_raw_free_elems(
        elems.subrange(1, elems.len() as int),
    ))
}

/// No node of any field value of `fields` carries the raw HTML tag.
pub open spec fn spec_raw_free_fields(fields: Seq<(Seq<char>, SpecDoc)>) -> bool
    decreases fields,
{
    fields.len() == 0 || (spec_raw_free(fields[0].1) && spec_raw_free_fields(
        fields.subrange(1, fields.len() as int),
    ))
}

/// The source and display flag of a math-tagged object, if it is well
/// formed: the content must hold a style object with a tag and a string
/// source.
pub open spec fn spec_math_parts(fields: Seq<(Seq<char>, SpecDoc)>) -> Option<(Seq<char>, bool)> {
    match spec_lookup(fields, "c"@) {
        Some(SpecDoc::Arr(items)) => if items.len() < 2 {
            None
        } else {
            match items[0] {
                SpecDoc::Obj(sf) => match spec_lookup(sf, "t"@) {
                    Some(style) => match items[1] {
                        SpecDoc::Str(tex) => Some((tex, style == SpecDoc::Str("DisplayMath"@))),
                        _ => None,
                    },
                    None => None,
                },
                _ => None,
            }
        },
        _ => None,
    }
}

/// The well-formed math nodes of a document, in document order: the source
/// and display flag of each. The walk never descends into a math node, so
/// neither does this.
pub open spec fn spec_maths(v: SpecDoc) -> Seq<(Seq<char>, bool)>
    decreases v, 1nat,
{
    match v {
        SpecDoc::Arr(elems) => spec_maths_elems(elems),
        SpecDoc::Obj(fields) => if spec_is_math_tagged(fields) {
            match spec_math_parts(fields) {
                Some(p) => seq![p],
                None => Seq::empty(),
            }
        } else {
            spec_maths_fields(fields)
        },
        _ => Seq::empty(),
    }
}

/// The well-formed math nodes of a list of elements, in order.
pub open spec fn spec_maths_elems(elems: Seq<SpecDoc>) -> Seq<(Seq<char>, bool)>
    decreases elems, 0nat,
{
    if elems.len() == 0 {
        Seq::empty()
    } else {
        spec_maths(elems[0]) + spec_maths_elems(elems.subrange(1, elems.len() as int))
    }
}

/// The well-formed math nodes of a field list, in order.
pub open spec fn spec_maths_fields(fields: Seq<(Seq<char>, SpecDoc)>) -> Seq<(Seq<char>, bool)>
    decreases fields, 0nat,
{
    if fields.len() == 0 {
        Seq::empty()
    } else {
        spec_maths(fields[0].1) + spec_maths_fields(fields.subrange(1, fields.len() as int))
    }
}

/// The content of a raw HTML node's pair, where it has the replacement's
/// shape.
pub open spec fn spec_raw_html(fields: Seq<(Seq<char>, SpecDoc)>) -> Seq<char> {
    match spec_lookup(fields, "c"@) {
        Some(SpecDoc::Arr(pair)) => if pair.len() == 2 {
            match pair[1] {
                SpecDoc::Str(h) => h,
                _ => Seq::empty(),
            }
        } else {
            Seq::empty()
        },
        _ => Seq::empty(),
    }
}

/// The raw HTML nodes of a document, in document order, each as its
/// content.
pub open spec fn spec_raws(v: SpecDoc) -> Seq<Seq<char>>
    decreases v, 1nat,
{
    match v {
        SpecDoc::Arr(elems) => spec_raws_elems(elems),
        SpecDoc::Obj(fields) => if spec_lookup(fields, "t"@) == Some(
            SpecDoc::Str("RawInline"@),
        ) {
            seq![spec_raw_html(fields)]
        } else {
            spec_raws_fields(fields)
        },
        _ => Seq::empty(),
    }
}

/// The raw HTML nodes of a list of elements, in order.
pub open spec fn spec_raws_elems(elems: Seq<SpecDoc>) -> Seq<Seq<char>>
    decreases elems, 0nat,
{
    if elems.len() == 0 {
        Seq::empty()
    } else {
        spec_raws(elems[0]) + spec_raws_elems(elems.subrange(1, elems.len() as int))
    }
}

/// The raw HTML nodes of a field list, in order.
pub open spec fn spec_raws_fields(fields: Seq<(Seq<char>, SpecDoc)>) -> Seq<Seq<char>>
    decreases fields, 0nat,
{
    if fields.len() == 0 {
        Seq::empty()
    } else {
        spec_raws(fields[0].1) + spec_raws_fields(fields.subrange(1, fields.len() as int))
    }
}

/// What the engine makes of each math node, in order.
pub open spec fn spec_rendered_list(ms: Seq<(Seq<char>, bool)>, o: OptsModel) -> Seq<Seq<char>>
    decreases ms,
{
    if ms.len() == 0 {
        Seq::empty()
    } else {
        seq![spec_render(ms[0].0, ms[0].1, o)->Some_0] + spec_rendered_list(
            ms.subrange(1, ms.len() as int),
            o,
        )
    }
}

/// Rendering a list of math nodes laid end to end renders the two parts end
/// to end.
pub proof fn lemma_rendered_list_concat(
    a: Seq<(Seq<char>, bool)>,
    b: Seq<(Seq<char>, bool)>,
    o: OptsModel,
)
    ensures
        spec_rendered_list(a + b, o) == spec_rendered_list(a, o) + spec_rendered_list(b, o),
    decreases a.len(),
{
    if a.len() == 0 {
        assert(a + b =~= b);
        assert(spec_rendered_list(a, o) + spec_rendered_list(b, o) =~= spec_rendered_list(b, o));
    } else {
        let t = a.subrange(1, a.len() as int);
        assert((a + b).subrange(1, (a + b).len() as int) =~= t + b);
        lemma_rendered_list_concat(t, b, o);
        assert((a + b)[0] == a[0]);
        assert(seq![spec_render((a + b)[0].0, (a + b)[0].1, o)->Some_0] + (spec_rendered_list(
            t,
            o,
        ) + spec_rendered_list(b, o)) =~= (seq![spec_render(a[0].0, a[0].1, o)->Some_0]
            + spec_rendered_list(t, o)) + spec_rendered_list(b, o));
    }
}

/// Exhaustive matching: in a document that carries no raw HTML tag of its
/// own, the raw HTML nodes of a successful rewrite correspond one to one,
/// in document order, to the well-formed math nodes of the input, each
/// holding what the engine rendered for that node.
pub proof fn lemma_exhaustive_matching(v: SpecDoc, o: OptsModel)
    requires
        spec_raw_free(v),
    ensures
        spec_rewrite(v, o) matches Ok(w) ==> spec_raws(w) == spec_rendered_list(
            spec_maths(v),
            o,
        ),
    decreases v, 1nat,
{
    if spec_rewrite(v, o) is Ok {
        match v {
            SpecDoc::Arr(elems) => {
                lemma_exhaustive_matching_elems(elems, o);
            },
            SpecDoc::Obj(fields) => {
                if spec_is_math_tagged(fields) {
                    reveal_strlit("t");
                    reveal_strlit("c");
                    lemma_replacement_is_total(fields, o);
                    let w = spec_rewrite(v, o)->Ok_0;
                    let ws = w->Obj_0;
                    assert(ws.len() == 2);
                    assert(ws[0] == ("t"@, SpecDoc::Str("RawInline"@)));
                    assert(spec_lookup(ws, "t"@) == Some(SpecDoc::Str("RawInline"@)));
                    assert("t"@ != "c"@);
                    assert(spec_lookup(ws.subrange(1, 2), "c"@) == Some(ws[1].1)) by {
                        assert(ws.subrange(1, 2)[0] == ws[1]);
                    }
                    assert(spec_lookup(ws, "c"@) == Some(ws[1].1));
                    let parts = spec_math_parts(fields);
                    assert(parts is Some);
                    let tex = parts->Some_0.0;
                    let disp = parts->Some_0.1;
                    let ms = spec_maths(v);
                    assert(ms == seq![(tex, disp)]);
                    assert(ms.len() == 1 && ms[0] == (tex, disp));
                    assert(ms.subrange(1, 1) =~= Seq::<(Seq<char>, bool)>::empty());
                    assert(spec_rendered_list(ms.subrange(1, 1), o) == Seq::<Seq<char>>::empty());
                    assert(seq![spec_render(tex, disp, o)->Some_0] + Seq::<Seq<char>>::empty()
                        =~= seq![spec_render(tex, disp, o)->Some_0]);
                    assert(spec_rendered_list(ms, o) == seq![spec_render(tex, disp, o)->Some_0]);
                    assert(spec_render(tex, disp, o) is Some);
                    let h = spec_render(tex, disp, o)->Some_0;
                    assert(w == raw_inline(h));
                    assert(spec_raw_html(ws) == h);
                    assert(spec_raws(w) == seq![spec_raw_html(ws)]);
                    assert(spec_raws(w) =~= spec_rendered_list(spec_maths(v), o));
                } else {
                    lemma_exhaustive_matching_fields(fields, o);
                    lemma_rewrite_fields_lookup(fields, o, "t"@);
                    match spec_lookup(fields, "t"@) {
                        Some(val) => {
                            lemma_rewrite_str_stability(val, o);
                        },
                        None => {},
                    }
                }
            },
            _ => {},
        }
    }
}

/// Exhaustive matching over the elements of an array.
pub proof fn lemma_exhaustive_matching_elems(elems: Seq<SpecDoc>, o: OptsModel)
    requires
        spec_raw_free_elems(elems),
    ensures
        spec_rewrite_elems(elems, o) matches Ok(ws) ==> spec_raws_elems(ws)
            == spec_rendered_list(spec_maths_elems(elems), o),
    decreases elems, 0nat,
{
    if spec_rewrite_elems(elems, o) is Ok && elems.len() > 0 {
        let rest = elems.subrange(1, elems.len() as int);
        lemma_exhaustive_matching(elems[0], o);
        lemma_exhaustive_matching_elems(rest, o);
        lemma_rendered_list_concat(spec_maths(elems[0]), spec_maths_elems(rest), o);
        let w = spec_rewrite(elems[0], o)->Ok_0;
        let ws = spec_rewrite_elems(rest, o)->Ok_0;
        assert((seq![w] + ws).subrange(1, (seq![w] + ws).len() as int) =~= ws);
        assert(spec_raws_elems(seq![w] + ws) == spec_raws(w) + spec_raws_elems(ws));
    }
}

/// Exhaustive matching over the field values of a plain object.
pub proof fn lemma_exhaustive_matching_fields(fields: Seq<(Seq<char>, SpecDoc)>, o: OptsModel)
    requires
        spec_raw_free_fields(fields),
    ensures
        spec_rewrite_fields(fields, o) matches Ok(ws) ==> spec_raws_fields(ws)
            == spec_rendered_list(spec_maths_fields(fields), o),
    decreases fields, 0nat,
{
    if spec_rewrite_fields(fields, o) is Ok && fields.len() > 0 {
        let rest = fields.subrange(1, fields.len() as int);
        lemma_exhaustive_matching(fields[0].1, o);
        lemma_exhaustive_matching_fields(rest, o);
        lemma_rendered_list_concat(spec_maths(fields[0].1), spec_maths_fields(rest), o);
        let w = spec_rewrite(fields[0].1, o)->Ok_0;
        let ws = spec_rewrite_fields(rest, o)->Ok_0;
        assert((seq![(fields[0].0, w)] + ws).subrange(
            1,
            (seq![(fields[0].0, w)] + ws).len() as int,
        ) =~= ws);
        assert(spec_raws_fields(seq![(fields[0].0, w)] + ws) == spec_raws(w) + spec_raws_fields(
            ws,
        ));
    }
}

/// The effective macro table of a macro list: later definitions overwrite
/// earlier ones.
pub open spec fn macros_map(ms: Seq<(Seq<char>, Seq<char>)>) -> Map<Seq<char>, Seq<char>>
    decreases ms,
{
    if ms.len() == 0 {
        Map::empty()
    } else {
        macros_map(ms.subrange(0, ms.len() - 1)).insert(ms.last().0, ms.last().1)
    }
}

/// Laying one macro list after another merges their tables, the later
/// list's definitions taking precedence.
pub proof fn lemma_macro_precedence(a: Seq<(Seq<char>, Seq<char>)>, b: Seq<(Seq<char>, Seq<char>)>)
    ensures
        macros_map(a + b) == macros_map(a).union_prefer_right(macros_map(b)),
    decreases b.len(),
{
    if b.len() == 0 {
        assert(a + b =~= a);
        assert(macros_map(a).union_prefer_right(macros_map(b)) =~= macros_map(a));
    } else {
        let b1 = b.subrange(0, b.len() - 1);
        let x = b.last();
        lemma_macro_precedence(a, b1);
        assert((a + b).subrange(0, (a + b).len() - 1) =~= a + b1);
        assert((a + b).last() == x);
        assert(macros_map(a).union_prefer_right(macros_map(b1).insert(x.0, x.1))
            =~= macros_map(a).union_prefer_right(macros_map(b1)).insert(x.0, x.1));
    }
}

/// A macro name the later list defines is bound to the later list's body in
/// the merged table.
pub proof fn lemma_macro_override(
    a: Seq<(Seq<char>, Seq<char>)>,
    b: Seq<(Seq<char>, Seq<char>)>,
    name: Seq<char>,
)
    requires
        macros_map(b).contains_key(name),
    ensures
        macros_map(a + b).contains_key(name),
        macros_map(a + b)[name] == macros_map(b)[name],
{
    lemma_macro_precedence(a, b);
}

} // verus!
