//! The persisted allow-list config: one keyed text file holding the array
//! field `allowed`.
//!
//! The daemon writes the canonical form `allowed = ["<id>","<id>"]` with a
//! trailing newline. The parser also accepts arbitrary whitespace between
//! tokens and a trailing comma, so a hand-edited file still loads.
//! Identities never hold quotes or backslashes, so escape sequences are
//! rejected rather than unescaped.

use vstd::prelude::*;

use crate::text::{
    lemma_parse_quoted_bounds, lemma_string_body_run_shift, parse_quoted_at, plain_text,
    skip_ws_at, string_body_run, ws_run,
};

verus! {

/// The file under the data directory that persists the allow-list.
pub fn config_file_name() -> (r: &'static str)
    ensures
        r@ == "device_allowed.toml"@,
{
    "device_allowed.toml"
}

/// Parses the elements after `[`: quoted strings separated by commas, an
/// optional trailing comma, then `]`. Yields the elements and the position
/// after `]`.
pub open spec fn spec_parse_ids(s: Seq<char>, i: int) -> Option<(Seq<Seq<char>>, int)>
    decreases s.len() - i,
{
    if i < 0 {
        None
    } else {
        let j = i + ws_run(s, i);
        if j < s.len() && s[j] == ']' {
            Some((Seq::empty(), j + 1))
        } else if j < s.len() && s[j] == '"' {
            match string_body_run(s, j + 1) {
                Some(n) => {
                    let v = s.subrange(j + 1, j + 1 + n);
                    let j2 = j + 2 + n;
                    let j3 = j2 + ws_run(s, j2);
                    if j3 < s.len() && s[j3] == ',' {
                        match spec_parse_ids(s, j3 + 1) {
                            Some((rest, j4)) => Some((seq![v] + rest, j4)),
                            None => None,
                        }
                    } else if j3 < s.len() && s[j3] == ']' {
                        Some((seq![v], j3 + 1))
                    } else {
                        None
                    }
                },
                None => None,
            }
        } else {
            None
        }
    }
}

/// Parses a whole config: optional whitespace, the key `allowed`, `=`, the
/// bracketed elements, optional trailing whitespace.
pub open spec fn spec_parse_allowed(s: Seq<char>) -> Option<Seq<Seq<char>>> {
    let i0 = ws_run(s, 0) as int;
    if i0 + 7 <= s.len() && s.subrange(i0, i0 + 7) == "allowed"@ {
        let i1 = i0 + 7 + ws_run(s, i0 + 7);
        if i1 < s.len() && s[i1] == '=' {
            let i2 = i1 + 1 + ws_run(s, i1 + 1);
            if i2 < s.len() && s[i2] == '[' {
                match spec_parse_ids(s, i2 + 1) {
                    Some((ids, i3)) => {
                        if i3 + ws_run(s, i3) == s.len() {
                            Some(ids)
                        } else {
                            None
                        }
                    },
                    None => None,
                }
            } else {
                None
            }
        } else {
            None
        }
    } else {
        None
    }
}

/// One quoted element.
pub open spec fn spec_quoted(v: Seq<char>) -> Seq<char> {
    seq!['"'] + v + seq!['"']
}

/// The canonical rendering of the elements from index `k` on: quoted,
/// comma-separated, compact.
pub open spec fn spec_render_ids_from(ids: Seq<Seq<char>>, k: int) -> Seq<char>
    decreases ids.len() - k,
{
    if k < 0 || k >= ids.len() {
        Seq::empty()
    } else if k == ids.len() - 1 {
        spec_quoted(ids[k])
    } else {
        spec_quoted(ids[k]) + seq![','] + spec_render_ids_from(ids, k + 1)
    }
}

/// The canonical rendering of a whole config.
pub open spec fn spec_render_allowed(ids: Seq<Seq<char>>) -> Seq<char> {
    "allowed = ["@ + spec_render_ids_from(ids, 0) + "]\n"@
}

/// Renders the elements from index `k` on.
fn render_ids_from(ids: &Vec<String>, k: usize) -> (r: String)
    requires
        k <= ids.len(),
    ensures
        r@ == spec_render_ids_from(ids.deep_view(), k as int),
    decreases ids.len() - k,
{
    if k >= ids.len() {
        let r = String::new();
        return r;
    }
    let mut r = String::from_str("\"");
    r.append(ids[k].as_str());
    r.append("\"");
    if k + 1 < ids.len() {
        r.append(",");
        let rest = render_ids_from(ids, k + 1);
        r.append(rest.as_str());
    }
    proof {
        reveal_strlit("\"");
        reveal_strlit(",");
        assert(r@ =~= spec_render_ids_from(ids.deep_view(), k as int));
    }
    r
}

/// Renders a whole config in the canonical form.
pub fn render_allowed(ids: &Vec<String>) -> (r: String)
    ensures
        r@ == spec_render_allowed(ids.deep_view()),
{
    let mut r = String::from_str("allowed = [");
    let elems = render_ids_from(ids, 0);
    r.append(elems.as_str());
    r.append("]\n");
    proof {
        assert(r@ =~= spec_render_allowed(ids.deep_view()));
    }
    r
}

/// Parses the elements after `[`.
fn parse_ids_at(s: &str, i: usize, n: usize) -> (r: Option<(Vec<String>, usize)>)
    requires
        n == s@.len(),
        i <= n,
    ensures
        match r {
            Some(p) => spec_parse_ids(s@, i as int) == Some((p.0.deep_view(), p.1 as int)) && p.1
                <= n,
            None => spec_parse_ids(s@, i as int) is None,
        },
    decreases n - i,
{
    let j = skip_ws_at(s, i, n);
    if j < n && s.get_char(j) == ']' {
        let out: Vec<String> = Vec::new();
        proof {
            assert(out.deep_view() =~~= Seq::<Seq<char>>::empty());
        }
        return Some((out, j + 1));
    }
    match parse_quoted_at(s, j, n) {
        None => {
            proof {
                assert(spec_parse_ids(s@, i as int) is None);
            }
            None
        },
        Some((v, j2)) => {
            proof {
                lemma_parse_quoted_bounds(s@, j as int);
                assert(s@[j as int] == '"');
                assert(string_body_run(s@, j + 1) == Some((j2 - j - 2) as nat));
            }
            let j3 = skip_ws_at(s, j2, n);
            if j3 < n && s.get_char(j3) == ',' {
                match parse_ids_at(s, j3 + 1, n) {
                    Some((rest, j4)) => {
                        let ghost restv = rest.deep_view();
                        let ghost vv = v@;
                        let mut out = rest;
                        out.insert(0, v);
                        proof {
                            assert(out.deep_view() =~~= seq![vv] + restv);
                        }
                        Some((out, j4))
                    },
                    None => None,
                }
            } else if j3 < n && s.get_char(j3) == ']' {
                let mut out: Vec<String> = Vec::new();
                let ghost vv = v@;
                out.push(v);
                proof {
                    assert(out.deep_view() =~~= seq![vv]);
                }
                Some((out, j3 + 1))
            } else {
                None
            }
        },
    }
}

/// Parsing a rendered element list, embedded before a closing bracket,
/// yields exactly the elements.
proof fn lemma_parse_ids_of_render(s: Seq<char>, i: int, ids: Seq<Seq<char>>, k: int)
    requires
        0 <= i,
        0 <= k <= ids.len(),
        forall|m: int| k <= m < ids.len() ==> plain_text(#[trigger] ids[m]),
        i + spec_render_ids_from(ids, k).len() < s.len(),
        s.subrange(i, i + spec_render_ids_from(ids, k).len()) == spec_render_ids_from(ids, k),
        s[i + spec_render_ids_from(ids, k).len()] == ']',
    ensures
        spec_parse_ids(s, i) == Some(
            (ids.skip(k), i + spec_render_ids_from(ids, k).len() + 1),
        ),
    decreases ids.len() - k,
{
    let rr = spec_render_ids_from(ids, k);
    assert forall|m: int| 0 <= m < rr.len() implies s[i + m] == rr[m] by {
        assert(s.subrange(i, i + rr.len())[m] == s[i + m]);
    }
    if k == ids.len() {
        assert(rr.len() == 0);
        assert(s[i] == ']');
        assert(ws_run(s, i) == 0);
        assert(ids.skip(k) =~= Seq::<Seq<char>>::empty());
    } else {
        let q = spec_quoted(ids[k]);
        let ll = ids[k].len() as int;
        assert(q.len() == ll + 2);
        assert forall|m: int| 0 <= m < q.len() implies q[m] == (if m == 0 {
            '"'
        } else if m <= ll {
            ids[k][m - 1]
        } else {
            '"'
        }) by {
            assert(q[m] == ((seq!['"'] + ids[k]) + seq!['"'])[m]);
            if m < ll + 1 {
                assert(q[m] == (seq!['"'] + ids[k])[m]);
            } else {
                assert(q[m] == seq!['"'][m - ll - 1]);
            }
        }
        assert forall|m: int| 0 <= m < q.len() implies rr[m] == q[m] by {
            if k < ids.len() - 1 {
                let rest0 = spec_render_ids_from(ids, k + 1);
                assert(rr[m] == ((q + seq![',']) + rest0)[m]);
                assert(rr[m] == (q + seq![','])[m]);
            }
        }
        assert(rr[0] == q[0]);
        assert(s[i + 0] == rr[0]);
        assert(s[i] == '"');
        assert(ws_run(s, i) == 0);
        // the quoted element spans [i+1, i+1+ll) with its closing quote after
        assert forall|m: int| i + 1 <= m < i + 1 + ll implies (s[m] != '"' && s[m] != '\\') by {
            assert(s[i + (m - i)] == rr[m - i]);
            assert(rr[m - i] == q[m - i]);
            assert(q[m - i] == ids[k][m - i - 1]);
        }
        assert(s[i + (ll + 1)] == rr[ll + 1]);
        assert(rr[ll + 1] == q[ll + 1]);
        assert(s[i + 1 + ll] == '"');
        assert(string_body_run(s, i + 1 + ll) == Some(0nat));
        lemma_string_body_run_shift(s, i + 1, i + 1 + ll);
        assert(string_body_run(s, i + 1) == Some(ll as nat));
        let v = s.subrange(i + 1, i + 1 + ll);
        assert forall|m: int| 0 <= m < ll implies v[m] == ids[k][m] by {
            assert(s[i + (1 + m)] == rr[1 + m]);
            assert(rr[1 + m] == q[1 + m]);
            assert(q[1 + m] == ids[k][m]);
        }
        assert(v =~= ids[k]);
        let j2 = i + 2 + ll;
        if k == ids.len() - 1 {
            assert(rr == q);
            assert(s[j2] == ']');
            assert(ws_run(s, j2) == 0);
            assert(spec_parse_ids(s, i) == Some((seq![v], j2 + 1)));
            assert(seq![v] =~= ids.skip(k));
        } else {
            let rest = spec_render_ids_from(ids, k + 1);
            assert(rr == (q + seq![',']) + rest);
            assert(rr[ll + 2] == (q + seq![','])[ll + 2]);
            assert(rr[ll + 2] == seq![','][0]);
            assert(s[i + (ll + 2)] == rr[ll + 2]);
            assert(s[j2] == ',');
            assert(ws_run(s, j2) == 0);
            let i2 = j2 + 1;
            assert(i2 + rest.len() == i + rr.len());
            assert forall|m: int| 0 <= m < rest.len() implies s[i2 + m] == rest[m] by {
                assert(rr[ll + 3 + m] == ((q + seq![',']) + rest)[ll + 3 + m]);
                assert(rr[ll + 3 + m] == rest[m]);
                assert(s[i + (ll + 3 + m)] == rr[ll + 3 + m]);
            }
            assert(s.subrange(i2, i2 + rest.len()) =~= rest);
            lemma_parse_ids_of_render(s, i2, ids, k + 1);
            assert(spec_parse_ids(s, i2) == Some((ids.skip(k + 1), i + rr.len() + 1)));
            assert(spec_parse_ids(s, i) == Some((seq![v] + ids.skip(k + 1), i + rr.len() + 1)));
            assert(seq![v] + ids.skip(k + 1) =~= ids.skip(k));
        }
    }
}

/// Law: persistence round trip. Rendering any allow-list — whose identities
/// hold neither quote nor backslash — and parsing the text back yields
/// exactly the same list, in the same order.
pub proof fn lemma_config_round_trip(ids: Seq<Seq<char>>)
    requires
        forall|m: int| 0 <= m < ids.len() ==> plain_text(#[trigger] ids[m]),
    ensures
        spec_parse_allowed(spec_render_allowed(ids)) == Some(ids),
{
    let s = spec_render_allowed(ids);
    let rr = spec_render_ids_from(ids, 0);
    let rl = rr.len() as int;
    let h = "allowed = ["@;
    let t = "]\n"@;
    reveal_strlit("allowed = [");
    reveal_strlit("allowed");
    reveal_strlit("]\n");
    assert(h.len() == 11);
    assert(t.len() == 2);
    assert(s.len() == 13 + rl);
    assert(forall|m: int| 0 <= m < 11 ==> s[m] == h[m]);
    assert(forall|m: int| 0 <= m < rl ==> s[11 + m] == rr[m]);
    assert(s[11 + rl] == t[0]);
    assert(s[12 + rl] == t[1]);
    assert(ws_run(s, 0) == 0);
    assert(s.subrange(0, 7) =~= "allowed"@);
    assert(ws_run(s, 8) == 0);
    assert(ws_run(s, 7) == 1);
    assert(ws_run(s, 10) == 0);
    assert(ws_run(s, 9) == 1);
    assert(s[8] == '=');
    assert(s[10] == '[');
    assert(s.subrange(11, 11 + rl) =~= rr);
    lemma_parse_ids_of_render(s, 11, ids, 0);
    assert(spec_parse_ids(s, 11) == Some((ids.skip(0), 12 + rl)));
    assert(ids.skip(0) =~= ids);
    assert(ws_run(s, 13 + rl) == 0);
    assert(ws_run(s, 12 + rl) == 1);
    assert(spec_parse_allowed(s) == Some(ids.skip(0)));
}

/// Parses a whole config.
pub fn parse_allowed(s: &str) -> (r: Option<Vec<String>>)
    ensures
        match r {
            Some(ids) => spec_parse_allowed(s@) == Some(ids.deep_view()),
            None => spec_parse_allowed(s@) is None,
        },
{
    let n = s.unicode_len();
    let i0 = skip_ws_at(s, 0, n);
    if n < 7 || i0 > n - 7 {
        return None;
    }
    let key = s.substring_char(i0, i0 + 7).to_owned();
    let expected = String::from_str("allowed");
    if !key.eq(&expected) {
        return None;
    }
    let i1 = skip_ws_at(s, i0 + 7, n);
    if i1 >= n || s.get_char(i1) != '=' {
        return None;
    }
    let i2 = skip_ws_at(s, i1 + 1, n);
    if i2 >= n || s.get_char(i2) != '[' {
        return None;
    }
    match parse_ids_at(s, i2 + 1, n) {
        Some((ids, i3)) => {
            let i4 = skip_ws_at(s, i3, n);
            if i4 == n {
                Some(ids)
            } else {
                None
            }
        },
        None => None,
    }
}

} // verus!
