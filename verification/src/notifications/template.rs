use vstd::prelude::*;

use crate::text::{chars_of, matches_at, push_char, starts_with};

verus! {

/// The placeholders that a title or body template may hold.
pub open spec fn placeholders() -> Seq<Seq<char>> {
    seq![
        "{project_name}"@,
        "{project_dir}"@,
        "{status}"@,
        "{emoji}"@,
        "{message}"@,
        "{priority}"@,
        "{connect_url}"@,
        "{transport_type}"@,
        "{tmux_session}"@,
        "{tmux_pane}"@,
    ]
}

/// The placeholders, as character lists.
pub fn placeholder_names() -> (r: Vec<Vec<char>>)
    ensures
        r@.len() == placeholders().len(),
        forall|i: int| 0 <= i < r@.len() ==> #[trigger] r@[i]@ == placeholders()[i],
{
    let mut r: Vec<Vec<char>> = Vec::new();
    r.push(chars_of("{project_name}"));
    r.push(chars_of("{project_dir}"));
    r.push(chars_of("{status}"));
    r.push(chars_of("{emoji}"));
    r.push(chars_of("{message}"));
    r.push(chars_of("{priority}"));
    r.push(chars_of("{connect_url}"));
    r.push(chars_of("{transport_type}"));
    r.push(chars_of("{tmux_session}"));
    r.push(chars_of("{tmux_pane}"));
    r
}

/// The first of `names[k..]` that is a non-empty prefix of `t`.
pub open spec fn placeholder_at(t: Seq<char>, names: Seq<Seq<char>>, k: int) -> Option<int>
    decreases names.len() - k,
{
    if k < 0 || k >= names.len() {
        None
    } else if names[k].len() > 0 && starts_with(t, names[k]) {
        Some(k)
    } else {
        placeholder_at(t, names, k + 1)
    }
}

pub proof fn lemma_placeholder_at(t: Seq<char>, names: Seq<Seq<char>>, k: int)
    ensures
        placeholder_at(t, names, k) matches Some(j) ==> k <= j < names.len() && names[j].len() > 0
            && starts_with(t, names[j]),
    decreases names.len() - k,
{
    if 0 <= k < names.len() && !(names[k].len() > 0 && starts_with(t, names[k])) {
        lemma_placeholder_at(t, names, k + 1);
    }
}

/// A template with each placeholder of `names` replaced by the matching entry
/// of `values`, read from left to right; all other text is kept.
pub open spec fn render(t: Seq<char>, names: Seq<Seq<char>>, values: Seq<Seq<char>>) -> Seq<char>
    decreases t.len(),
{
    if t.len() == 0 {
        Seq::empty()
    } else {
        match placeholder_at(t, names, 0) {
            Some(j) => {
                proof {
                    lemma_placeholder_at(t, names, 0);
                }
                values[j] + render(t.skip(names[j].len() as int), names, values)
            },
            None => seq![t[0]] + render(t.drop_first(), names, values),
        }
    }
}

/// The first placeholder of `names` that starts at position `i` of `tv`.
fn find_placeholder(tv: &Vec<char>, i: usize, names: &Vec<Vec<char>>) -> (r: Option<usize>)
    requires
        i <= tv.len(),
    ensures
        r matches Some(j) ==> placeholder_at(
            tv@.skip(i as int),
            names@.map_values(|n: Vec<char>| n@),
            0,
        ) == Some(j as int),
        r is None ==> placeholder_at(
            tv@.skip(i as int),
            names@.map_values(|n: Vec<char>| n@),
            0,
        ) is None,
{
    let ghost u = tv@.skip(i as int);
    let ghost nv = names@.map_values(|n: Vec<char>| n@);
    let mut k: usize = 0;
    while k < names.len()
        invariant
            u == tv@.skip(i as int),
            i <= tv.len(),
            nv == names@.map_values(|n: Vec<char>| n@),
            0 <= k <= names.len(),
            placeholder_at(u, nv, 0) == placeholder_at(u, nv, k as int),
        decreases names.len() - k,
    {
        let nk = &names[k];
        let m = nk.len() > 0 && matches_at(tv, i, nk);
        proof {
            assert(nv[k as int] == nk@);
            if nk@.len() <= u.len() {
                assert(u.take(nk@.len() as int) =~= tv@.subrange(i as int, i + nk@.len()));
            }
        }
        if m {
            return Some(k);
        }
        k = k + 1;
    }
    None
}

/// Fills in a template: each placeholder of `names` is replaced by the matching
/// entry of `values`.
pub fn render_template(t: &str, names: &Vec<Vec<char>>, values: &Vec<String>) -> (r: String)
    requires
        names@.len() == values@.len(),
    ensures
        r@ == render(
            t@,
            names@.map_values(|n: Vec<char>| n@),
            values@.map_values(|v: String| v@),
        ),
{
    let ghost nv = names@.map_values(|n: Vec<char>| n@);
    let ghost vv = values@.map_values(|v: String| v@);
    let tv = chars_of(t);
    let mut out = String::new();
    let mut i: usize = 0;
    proof {
        assert(tv@.skip(0) =~= t@);
    }
    while i < tv.len()
        invariant
            tv@ == t@,
            names@.len() == values@.len(),
            nv == names@.map_values(|n: Vec<char>| n@),
            vv == values@.map_values(|v: String| v@),
            0 <= i <= tv.len(),
            out@ + render(tv@.skip(i as int), nv, vv) == render(t@, nv, vv),
        decreases tv.len() - i,
    {
        let ghost u = tv@.skip(i as int);
        let found = find_placeholder(&tv, i, names);
        proof {
            lemma_placeholder_at(u, nv, 0);
        }
        match found {
            Some(j) => {
                out.append(values[j].as_str());
                proof {
                    assert(nv[j as int] == names@[j as int]@);
                    assert(render(u, nv, vv) == vv[j as int] + render(u.skip(nv[j as int].len() as int), nv, vv));
                    assert(vv[j as int] == values@[j as int]@);
                    assert(u.skip(nv[j as int].len() as int) =~= tv@.skip(i + names@[j as int]@.len()));
                    assert(out@ + render(tv@.skip(i + names@[j as int]@.len()), nv, vv) =~= render(t@, nv, vv));
                }
                i = i + names[j].len();
            },
            None => {
                proof {
                    assert(placeholder_at(u, nv, names@.len() as int) is None);
                    assert(u.drop_first() =~= tv@.skip(i + 1));
                    assert(u[0] == tv@[i as int]);
                    assert(render(u, nv, vv) == seq![u[0]] + render(u.drop_first(), nv, vv));
                }
                push_char(&mut out, tv[i]);
                proof {
                    assert(out@ + render(tv@.skip(i + 1), nv, vv) =~= render(t@, nv, vv));
                }
                i = i + 1;
            },
        }
    }
    proof {
        assert(tv@.skip(i as int).len() == 0);
        assert(out@ + render(tv@.skip(i as int), nv, vv) =~= out@);
    }
    out
}

} // verus!
