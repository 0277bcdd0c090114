//! Binds the computed recipe fields into a named-placeholder template.
//! Substitution is a single left-to-right pass: each `{name}` is replaced
//! by the bound value verbatim (values are never rescanned), a placeholder
//! bound by no field is an error, and so is a `{` that never closes — no
//! partially-substituted text is ever produced.

use vstd::prelude::*;
use vstd::string::StrSliceExecFns;
use vstd::string::StringExecFns;

use crate::errors::RecipeError;
use crate::text::str_eq;

verus! {

/// The full placeholder set a template can draw from.
pub struct RecipeFields {
    pub name: String,
    pub version: String,
    pub summary: String,
    pub homepage: String,
    pub license: String,
    pub lic_files: String,
    pub src_uri: String,
    pub src_uri_extras: String,
    pub project_rel_dir: String,
    pub project_src_uri: String,
    pub project_src_rev: String,
    pub git_srcpv: String,
    pub cargo_bitbake_ver: String,
}

/// The value bound to a placeholder name, if any.
pub open spec fn field_value(f: RecipeFields, name: Seq<char>) -> Option<Seq<char>> {
    if name == "name"@ {
        Some(f.name@)
    } else if name == "version"@ {
        Some(f.version@)
    } else if name == "summary"@ {
        Some(f.summary@)
    } else if name == "homepage"@ {
        Some(f.homepage@)
    } else if name == "license"@ {
        Some(f.license@)
    } else if name == "lic_files"@ {
        Some(f.lic_files@)
    } else if name == "src_uri"@ {
        Some(f.src_uri@)
    } else if name == "src_uri_extras"@ {
        Some(f.src_uri_extras@)
    } else if name == "project_rel_dir"@ {
        Some(f.project_rel_dir@)
    } else if name == "project_src_uri"@ {
        Some(f.project_src_uri@)
    } else if name == "project_src_rev"@ {
        Some(f.project_src_rev@)
    } else if name == "git_srcpv"@ {
        Some(f.git_srcpv@)
    } else if name == "cargo_bitbake_ver"@ {
        Some(f.cargo_bitbake_ver@)
    } else {
        None
    }
}

fn field_lookup<'a>(f: &'a RecipeFields, name: &str) -> (r: Option<&'a String>)
    ensures
        r matches Some(s) ==> field_value(*f, name@) == Some(s@),
        r is None ==> field_value(*f, name@) is None,
{
    if str_eq(name, "name") {
        Some(&f.name)
    } else if str_eq(name, "version") {
        Some(&f.version)
    } else if str_eq(name, "summary") {
        Some(&f.summary)
    } else if str_eq(name, "homepage") {
        Some(&f.homepage)
    } else if str_eq(name, "license") {
        Some(&f.license)
    } else if str_eq(name, "lic_files") {
        Some(&f.lic_files)
    } else if str_eq(name, "src_uri") {
        Some(&f.src_uri)
    } else if str_eq(name, "src_uri_extras") {
        Some(&f.src_uri_extras)
    } else if str_eq(name, "project_rel_dir") {
        Some(&f.project_rel_dir)
    } else if str_eq(name, "project_src_uri") {
        Some(&f.project_src_uri)
    } else if str_eq(name, "project_src_rev") {
        Some(&f.project_src_rev)
    } else if str_eq(name, "git_srcpv") {
        Some(&f.git_srcpv)
    } else if str_eq(name, "cargo_bitbake_ver") {
        Some(&f.cargo_bitbake_ver)
    } else {
        None
    }
}

/// Reads a placeholder name up to the first `}`: the name and the text
/// after the brace, or nothing when no `}` follows.
pub open spec fn take_name(t: Seq<char>) -> Option<(Seq<char>, Seq<char>)>
    decreases t.len(),
{
    if t.len() == 0 {
        None
    } else if t[0] == '}' {
        Some((Seq::<char>::empty(), t.skip(1)))
    } else {
        match take_name(t.skip(1)) {
            None => None,
            Some(p) => Some((seq![t[0]] + p.0, p.1)),
        }
    }
}

/// What `take_name` leaves behind is strictly shorter than its input.
pub proof fn lemma_take_name_shrinks(t: Seq<char>)
    ensures
        take_name(t) matches Some(p) ==> p.1.len() < t.len(),
    decreases t.len(),
{
    if t.len() == 0 {
    } else if t[0] == '}' {
    } else {
        lemma_take_name_shrinks(t.skip(1));
    }
}

/// The outcome of substitution: the rendered text, the first unbound
/// placeholder name, or an unclosed placeholder.
pub enum RenderOutcome {
    Done(Seq<char>),
    Unbound(Seq<char>),
    Unclosed,
}

/// One pass of literal substitution over the template.
pub open spec fn render_full(t: Seq<char>, f: RecipeFields) -> RenderOutcome
    decreases t.len(),
    via render_full_decreases
{
    if t.len() == 0 {
        RenderOutcome::Done(Seq::<char>::empty())
    } else if t[0] == '{' {
        match take_name(t.skip(1)) {
            None => RenderOutcome::Unclosed,
            Some(p) => match field_value(f, p.0) {
                None => RenderOutcome::Unbound(p.0),
                Some(v) => match render_full(p.1, f) {
                    RenderOutcome::Done(r) => RenderOutcome::Done(v + r),
                    other => other,
                },
            },
        }
    } else {
        match render_full(t.skip(1), f) {
            RenderOutcome::Done(r) => RenderOutcome::Done(seq![t[0]] + r),
            other => other,
        }
    }
}

#[via_fn]
proof fn render_full_decreases(t: Seq<char>, f: RecipeFields) {
    if t.len() > 0 && t[0] == '{' {
        lemma_take_name_shrinks(t.skip(1));
    }
}

/// Finds the `}` closing the placeholder that starts at `from`.
fn find_close(t: &str, from: usize) -> (r: Option<usize>)
    requires
        from <= t@.len(),
    ensures
        r matches Some(j) ==> from <= j < t@.len() && take_name(t@.skip(from as int)) == Some(
            (t@.subrange(from as int, j as int), t@.skip(j + 1)),
        ),
        r is None ==> take_name(t@.skip(from as int)) is None,
{
    let len = t.unicode_len();
    let mut j: usize = from;
    proof {
        assert(t@.subrange(from as int, from as int) =~= Seq::<char>::empty());
    }
    loop
        invariant
            from <= j <= len,
            len == t@.len(),
            match take_name(t@.skip(j as int)) {
                None => take_name(t@.skip(from as int)) is None,
                Some(p) => take_name(t@.skip(from as int)) == Some(
                    (t@.subrange(from as int, j as int) + p.0, p.1),
                ),
            },
        decreases len - j,
    {
        if j == len {
            proof {
                assert(t@.skip(len as int).len() == 0);
            }
            return None;
        }
        let cj = t.get_char(j);
        let ghost u = t@.skip(j as int);
        proof {
            assert(u[0] == cj);
            assert(u.skip(1) =~= t@.skip(j + 1));
        }
        if cj == '}' {
            proof {
                assert(take_name(u) == Some((Seq::<char>::empty(), u.skip(1))));
                assert(t@.subrange(from as int, j as int) + Seq::<char>::empty() =~= t@.subrange(
                    from as int,
                    j as int,
                ));
            }
            return Some(j);
        }
        proof {
            if take_name(t@.skip(j + 1)) is Some {
                let p = take_name(t@.skip(j + 1)).unwrap();
                assert(take_name(u) == Some((seq![cj] + p.0, p.1)));
                assert(t@.subrange(from as int, j as int) + (seq![cj] + p.0) =~= t@.subrange(
                    from as int,
                    j + 1,
                ) + p.0);
            }
        }
        j = j + 1;
    }
}

/// Renders `template` with `fields` bound, exactly as `render_full`
/// describes: the rendered text on success, and the precise failure —
/// first unbound placeholder, or an unclosed one — otherwise. Nothing is
/// written anywhere by this function; a failed render therefore never
/// leaves partial output behind.
pub fn render_recipe(template: &str, fields: &RecipeFields) -> (r: Result<String, RecipeError>)
    ensures
        r is Ok <==> render_full(template@, *fields) is Done,
        r matches Ok(s) ==> render_full(template@, *fields) == RenderOutcome::Done(s@),
        r matches Err(e) ==> match e {
            RecipeError::UnboundPlaceholder { name } => render_full(template@, *fields)
                == RenderOutcome::Unbound(name@),
            RecipeError::UnclosedPlaceholder => render_full(template@, *fields) is Unclosed,
            _ => false,
        },
{
    let ghost tv = template@;
    let len = template.unicode_len();
    let mut out = String::new();
    let mut seg: usize = 0;
    let mut pos: usize = 0;
    proof {
        assert(tv.skip(0) =~= tv);
        assert(tv.subrange(0, 0) =~= Seq::<char>::empty());
        if render_full(tv, *fields) is Done {
            let s = render_full(tv, *fields)->Done_0;
            assert(out@ + tv.subrange(0, 0) + s =~= s);
        }
    }
    loop
        invariant
            seg <= pos <= len,
            len == tv.len(),
            tv == template@,
            match render_full(tv.skip(pos as int), *fields) {
                RenderOutcome::Done(s) => render_full(tv, *fields) == RenderOutcome::Done(
                    out@ + tv.subrange(seg as int, pos as int) + s,
                ),
                RenderOutcome::Unbound(n) => render_full(tv, *fields) == RenderOutcome::Unbound(n),
                RenderOutcome::Unclosed => render_full(tv, *fields) is Unclosed,
            },
        decreases len - pos,
    {
        if pos == len {
            let lit = template.substring_char(seg, pos);
            let ghost out0 = out@;
            out.append(lit);
            proof {
                assert(tv.skip(len as int) =~= Seq::<char>::empty());
                assert(render_full(Seq::<char>::empty(), *fields) == RenderOutcome::Done(
                    Seq::<char>::empty(),
                ));
                assert(out@ =~= out0 + tv.subrange(seg as int, pos as int)
                    + Seq::<char>::empty());
            }
            return Ok(out);
        }
        let c = template.get_char(pos);
        let ghost t1 = tv.skip(pos as int);
        proof {
            assert(t1[0] == c);
            assert(t1.skip(1) =~= tv.skip(pos + 1));
        }
        if c != '{' {
            proof {
                match render_full(tv.skip(pos + 1), *fields) {
                    RenderOutcome::Done(s) => {
                        assert(render_full(t1, *fields) == RenderOutcome::Done(seq![c] + s));
                        assert(out@ + tv.subrange(seg as int, pos as int) + (seq![c] + s) =~= out@
                            + tv.subrange(seg as int, pos + 1) + s);
                    },
                    RenderOutcome::Unbound(_) => {},
                    RenderOutcome::Unclosed => {},
                }
            }
            pos = pos + 1;
        } else {
            match find_close(template, pos + 1) {
                None => {
                    proof {
                        assert(render_full(t1, *fields) is Unclosed);
                    }
                    return Err(RecipeError::UnclosedPlaceholder);
                },
                Some(j) => {
                    let name = template.substring_char(pos + 1, j);
                    match field_lookup(fields, name) {
                        None => {
                            proof {
                                assert(render_full(t1, *fields) == RenderOutcome::Unbound(name@));
                            }
                            return Err(
                                RecipeError::UnboundPlaceholder { name: String::from_str(name) },
                            );
                        },
                        Some(v) => {
                            let lit = template.substring_char(seg, pos);
                            let ghost out0 = out@;
                            out.append(lit);
                            out.append(v.as_str());
                            proof {
                                match render_full(tv.skip(j + 1), *fields) {
                                    RenderOutcome::Done(s) => {
                                        assert(render_full(t1, *fields) == RenderOutcome::Done(
                                            v@ + s,
                                        ));
                                        assert(out0 + tv.subrange(seg as int, pos as int) + (v@
                                            + s) =~= out@ + tv.subrange(j + 1, j + 1) + s);
                                    },
                                    RenderOutcome::Unbound(_) => {},
                                    RenderOutcome::Unclosed => {},
                                }
                            }
                            pos = j + 1;
                            seg = pos;
                        },
                    }
                },
            }
        }
    }
}

/// A template without any `{` renders as itself: literal text passes
/// through substitution unchanged.
pub proof fn lemma_render_literal_identity(t: Seq<char>, f: RecipeFields)
    requires
        forall|i: int| 0 <= i < t.len() ==> t[i] != '{',
    ensures
        render_full(t, f) == RenderOutcome::Done(t),
    decreases t.len(),
{
    if t.len() == 0 {
        assert(t =~= Seq::<char>::empty());
    } else {
        assert(forall|i: int| 0 <= i < t.skip(1).len() ==> #[trigger] t.skip(1)[i] != '{');
        lemma_render_literal_identity(t.skip(1), f);
        assert(seq![t[0]] + t.skip(1) =~= t);
    }
}

/// A brace-free prefix passes through substitution unchanged, whatever
/// follows it: rendering distributes over literal text.
pub proof fn lemma_render_literal_prefix(t1: Seq<char>, t2: Seq<char>, f: RecipeFields)
    requires
        forall|i: int| 0 <= i < t1.len() ==> t1[i] != '{',
    ensures
        render_full(t2, f) matches RenderOutcome::Done(s) ==> render_full(t1 + t2, f)
            == RenderOutcome::Done(t1 + s),
        !(render_full(t2, f) is Done) ==> render_full(t1 + t2, f) == render_full(t2, f),
    decreases t1.len(),
{
    if t1.len() == 0 {
        assert(t1 + t2 =~= t2);
        if render_full(t2, f) is Done {
            let s = render_full(t2, f)->Done_0;
            assert(t1 + s =~= s);
        }
    } else {
        let t = t1 + t2;
        assert(t[0] == t1[0]);
        assert(t.skip(1) =~= t1.skip(1) + t2);
        assert(forall|i: int| 0 <= i < t1.skip(1).len() ==> #[trigger] t1.skip(1)[i] != '{');
        lemma_render_literal_prefix(t1.skip(1), t2, f);
        if render_full(t2, f) is Done {
            let s = render_full(t2, f)->Done_0;
            assert(seq![t1[0]] + (t1.skip(1) + s) =~= t1 + s);
        }
    }
}

/// Reading a brace-free name followed by `}` recovers the name exactly
/// and leaves exactly what follows the brace.
pub proof fn lemma_take_name_exact(nm: Seq<char>, rest: Seq<char>)
    requires
        !nm.contains('}'),
    ensures
        take_name(nm + seq!['}'] + rest) == Some((nm, rest)),
    decreases nm.len(),
{
    let t = nm + seq!['}'] + rest;
    if nm.len() == 0 {
        assert(t[0] == '}');
        assert(t.skip(1) =~= rest);
        assert(nm =~= Seq::<char>::empty());
    } else {
        assert(t[0] == nm[0]);
        assert(nm[0] != '}');
        assert(t.skip(1) =~= nm.skip(1) + seq!['}'] + rest);
        assert(!nm.skip(1).contains('}')) by {
            if nm.skip(1).contains('}') {
                let k = choose|k: int| 0 <= k < nm.skip(1).len() && nm.skip(1)[k] == '}';
                assert(nm[k + 1] == '}');
            }
        }
        lemma_take_name_exact(nm.skip(1), rest);
        assert(seq![nm[0]] + nm.skip(1) =~= nm);
    }
}

/// A placeholder of a bound field prefixing any template substitutes to
/// the bound value followed by the rendering of the remainder.
pub proof fn lemma_render_placeholder_prefix(
    nm: Seq<char>,
    t2: Seq<char>,
    f: RecipeFields,
    v: Seq<char>,
)
    requires
        field_value(f, nm) == Some(v),
        !nm.contains('}'),
    ensures
        render_full(t2, f) matches RenderOutcome::Done(s) ==> render_full(
            seq!['{'] + nm + seq!['}'] + t2,
            f,
        ) == RenderOutcome::Done(v + s),
        !(render_full(t2, f) is Done) ==> render_full(seq!['{'] + nm + seq!['}'] + t2, f)
            == render_full(t2, f),
{
    let t = seq!['{'] + nm + seq!['}'] + t2;
    assert(t[0] == '{');
    assert(t.skip(1) =~= nm + seq!['}'] + t2);
    lemma_take_name_exact(nm, t2);
}

/// Substitution injects bound values verbatim: rendering a template that
/// is exactly one placeholder of a bound field yields exactly the bound
/// value — nothing is lost, altered or escaped on the way through.
pub proof fn lemma_placeholder_round_trip(f: RecipeFields, nm: Seq<char>, v: Seq<char>)
    requires
        field_value(f, nm) == Some(v),
        !nm.contains('}'),
    ensures
        render_full(seq!['{'] + nm + seq!['}'], f) == RenderOutcome::Done(v),
{
    let t = seq!['{'] + nm + seq!['}'];
    assert(t[0] == '{');
    assert(t.skip(1) =~= nm + seq!['}'] + Seq::<char>::empty());
    lemma_take_name_exact(nm, Seq::<char>::empty());
    assert(render_full(Seq::<char>::empty(), f) == RenderOutcome::Done(Seq::<char>::empty()));
    assert(v + Seq::<char>::empty() =~= v);
}

} // verus!
