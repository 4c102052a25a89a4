//! The second-stage scanner: reads expanded native source text line by
//! line, recovers every embedded record payload by its tag, strips the
//! backslash artifact the expansion step introduces, and finds the
//! package name in the one well-known constant-declaration line.

use vstd::prelude::*;

use crate::strutil::{has_char, push_char, remove_char, remove_char_exec};

verus! {

/// `pat` occurs in `s` at position `i`.
pub open spec fn found_at(s: Seq<char>, pat: Seq<char>, i: int) -> bool {
    0 <= i && i + pat.len() <= s.len() && s.subrange(i, i + pat.len()) == pat
}

/// The first position where `pat` occurs in `s`.
pub open spec fn find_sub(s: Seq<char>, pat: Seq<char>) -> Option<int>
    decreases s.len(),
{
    if s.len() < pat.len() {
        Option::None
    } else if s.take(pat.len() as int) == pat {
        Option::Some(0)
    } else if s.len() == 0 {
        Option::None
    } else {
        match find_sub(s.drop_first(), pat) {
            Option::Some(i) => Option::Some(i + 1),
            Option::None => Option::None,
        }
    }
}

/// What `find_sub` finds is an occurrence, the first one; and where it
/// finds none, there is none.
pub proof fn lemma_find_sub_first(s: Seq<char>, pat: Seq<char>)
    ensures
        match find_sub(s, pat) {
            Option::Some(i) => found_at(s, pat, i) && (forall|j: int|
                0 <= j < i ==> !found_at(s, pat, j)),
            Option::None => forall|j: int| !found_at(s, pat, j),
        },
    decreases s.len(),
{
    if s.len() < pat.len() {
        assert forall|j: int| !found_at(s, pat, j) by {
            if 0 <= j && j + pat.len() <= s.len() {
                assert(false);
            }
        }
    } else if s.take(pat.len() as int) == pat {
        assert(s.subrange(0, pat.len() as int) =~= s.take(pat.len() as int));
    } else if s.len() == 0 {
        assert forall|j: int| !found_at(s, pat, j) by {
            if found_at(s, pat, j) {
                assert(s.subrange(0, 0) =~= s.take(0));
            }
        }
    } else {
        lemma_find_sub_first(s.drop_first(), pat);
        assert(!found_at(s, pat, 0)) by {
            if found_at(s, pat, 0) {
                assert(s.subrange(0, pat.len() as int) =~= s.take(pat.len() as int));
            }
        }
        assert forall|j: int| 1 <= j && found_at(s, pat, j) implies found_at(
            s.drop_first(),
            pat,
            j - 1,
        ) by {
            assert(forall|l: int|
                0 <= l < pat.len() ==> pat[l] == #[trigger] s.subrange(j, j + pat.len())[l]);
            assert(forall|l: int|
                0 <= l < pat.len() ==> #[trigger] s.subrange(j, j + pat.len())[l] == s[j + l]);
            assert(forall|l: int|
                0 <= l < pat.len() ==> #[trigger] s.drop_first().subrange(
                    j - 1,
                    j - 1 + pat.len(),
                )[l] == s.drop_first()[j - 1 + l]);
            assert(forall|l: int|
                0 <= l < pat.len() ==> #[trigger] s.drop_first()[j - 1 + l] == s[j + l]);
            assert(s.drop_first().subrange(j - 1, j - 1 + pat.len()) =~= pat);
        }
        assert forall|j: int| 0 <= j && found_at(s.drop_first(), pat, j) implies found_at(
            s,
            pat,
            j + 1,
        ) by {
            assert(forall|l: int|
                0 <= l < pat.len() ==> pat[l] == #[trigger] s.drop_first().subrange(
                    j,
                    j + pat.len(),
                )[l]);
            assert(forall|l: int|
                0 <= l < pat.len() ==> #[trigger] s.drop_first().subrange(j, j + pat.len())[l]
                    == s.drop_first()[j + l]);
            assert(forall|l: int|
                0 <= l < pat.len() ==> #[trigger] s.drop_first()[j + l] == s[j + 1 + l]);
            assert(forall|l: int|
                0 <= l < pat.len() ==> #[trigger] s.subrange(j + 1, j + 1 + pat.len())[l] == s[j
                    + 1 + l]);
            assert(s.subrange(j + 1, j + 1 + pat.len()) =~= pat);
        }
        match find_sub(s.drop_first(), pat) {
            Option::Some(i) => {
                assert(found_at(s, pat, i + 1));
            },
            Option::None => {},
        }
    }
}

/// Find the first occurrence of `pat` in the characters `s`.
pub fn find_sub_chars(s: &Vec<char>, pat: &Vec<char>) -> (r: Option<usize>)
    ensures
        match r {
            Option::Some(i) => find_sub(s@, pat@) == Option::Some(i as int),
            Option::None => find_sub(s@, pat@) is None,
        },
{
    proof {
        lemma_find_sub_first(s@, pat@);
    }
    let n = s.len();
    let m = pat.len();
    if m > n {
        return Option::None;
    }
    let mut i: usize = 0;
    while i <= n - m
        invariant
            n == s@.len(),
            m == pat@.len(),
            m <= n,
            i <= n - m + 1,
            forall|j: int| 0 <= j < i ==> !found_at(s@, pat@, j),
        decreases n - i,
    {
        let mut k: usize = 0;
        let mut matched = true;
        while k < m
            invariant
                n == s@.len(),
                m == pat@.len(),
                i + m <= n,
                k <= m,
                matched <==> (forall|l: int| 0 <= l < k ==> s@[i + l] == pat@[l]),
            decreases m - k,
        {
            if s[i + k] != pat[k] {
                matched = false;
                k = m;
            } else {
                k = k + 1;
            }
        }
        if matched {
            proof {
                lemma_find_sub_first(s@, pat@);
                assert(s@.subrange(i as int, i + m) =~= pat@);
                assert(found_at(s@, pat@, i as int));
            }
            return Option::Some(i);
        }
        proof {
            assert(!found_at(s@, pat@, i as int)) by {
                if found_at(s@, pat@, i as int) {
                    assert(forall|l: int|
                        0 <= l < m ==> s@[i + l] == #[trigger] s@.subrange(i as int, i + m)[l]);
                }
            }
        }
        i = i + 1;
    }
    proof {
        lemma_find_sub_first(s@, pat@);
        assert forall|j: int| !found_at(s@, pat@, j) by {
            if 0 <= j && j + m <= n {
                assert(!found_at(s@, pat@, j));
            } else {
                if found_at(s@, pat@, j) {
                    assert(false);
                }
            }
        }
    }
    Option::None
}

/// The last position where `c` occurs in `s`.
pub open spec fn rfind_char(s: Seq<char>, c: char) -> Option<int>
    decreases s.len(),
{
    if s.len() == 0 {
        Option::None
    } else if s.last() == c {
        Option::Some(s.len() - 1)
    } else {
        rfind_char(s.drop_last(), c)
    }
}

proof fn lemma_rfind_bounds(s: Seq<char>, c: char)
    ensures
        rfind_char(s, c) matches Option::Some(i) ==> 0 <= i < s.len(),
    decreases s.len(),
{
    if s.len() > 0 && s.last() != c {
        lemma_rfind_bounds(s.drop_last(), c);
    }
}

/// The lines of a text, split on the newline character; a text without
/// one is a single line, and every newline ends a line.
pub open spec fn lines_of(s: Seq<char>) -> Seq<Seq<char>>
    decreases s.len(),
    via lines_of_dec
{
    match rfind_char(s, '\n') {
        Option::None => seq![s],
        Option::Some(i) => lines_of(s.take(i)) + seq![s.skip(i + 1)],
    }
}

#[via_fn]
proof fn lines_of_dec(s: Seq<char>) {
    lemma_rfind_bounds(s, '\n');
}

/// Split a text into its lines.
pub fn split_lines(text: &str) -> (out: Vec<String>)
    ensures
        out.deep_view() == lines_of(text@),
{
    let n: usize = text.unicode_len();
    let mut out: Vec<String> = Vec::new();
    let mut cur = String::new();
    let mut i: usize = 0;
    proof {
        assert(text@.take(0) =~= Seq::<char>::empty());
        assert(rfind_char(Seq::<char>::empty(), '\n') is None);
        assert(lines_of(text@.take(0)) =~= seq![Seq::<char>::empty()]);
        assert(out.deep_view().push(cur@) =~= seq![Seq::<char>::empty()]);
    }
    while i < n
        invariant
            n == text@.len(),
            i <= n,
            lines_of(text@.take(i as int)) == out.deep_view().push(cur@),
        decreases n - i,
    {
        let ghost pre = text@.take(i as int);
        let ghost out_old = out.deep_view();
        let ghost cur_old = cur@;
        let c = text.get_char(i);
        proof {
            assert(text@.take(i as int + 1) =~= pre.push(text@[i as int]));
        }
        if c == '\n' {
            proof {
                assert(pre.push('\n').last() == '\n');
                assert(pre.push('\n').drop_last() =~= pre);
                assert(rfind_char(pre.push('\n'), '\n') == Option::Some(pre.len() as int));
                assert(pre.push('\n').take(pre.len() as int) =~= pre);
                assert(pre.push('\n').skip(pre.len() as int + 1) =~= Seq::<char>::empty());
                assert(lines_of(pre.push('\n')) == lines_of(pre) + seq![Seq::<char>::empty()]);
            }
            out.push(cur);
            cur = String::new();
            proof {
                assert(out.deep_view() =~= out_old.push(cur_old));
                assert((out_old.push(cur_old)) + seq![Seq::<char>::empty()] =~= out.deep_view().push(
                    cur@,
                ));
                assert(lines_of(pre) + seq![Seq::<char>::empty()] =~= (out_old.push(
                    cur_old,
                )).push(Seq::<char>::empty()));
            }
        } else {
            proof {
                assert(pre.push(c).last() == c);
                assert(pre.push(c).drop_last() =~= pre);
                match rfind_char(pre, '\n') {
                    Option::None => {
                        assert(rfind_char(pre.push(c), '\n') is None);
                        assert(lines_of(pre.push(c)) == seq![pre.push(c)]);
                        assert(lines_of(pre) == seq![pre]);
                        assert(out_old.push(cur_old) =~= seq![pre]);
                        assert((out_old.push(cur_old)).len() == out_old.len() + 1);
                        assert(seq![pre].len() == 1);
                        assert(out_old.len() == 0);
                        assert((out_old.push(cur_old))[0] == cur_old);
                        assert(seq![pre][0] == pre);
                        assert(cur_old == pre);
                        assert(seq![pre.push(c)] =~= out_old.push(cur_old.push(c)));
                    },
                    Option::Some(j) => {
                        lemma_rfind_bounds(pre, '\n');
                        assert(rfind_char(pre.push(c), '\n') == Option::Some(j));
                        assert(pre.push(c).take(j) =~= pre.take(j));
                        assert(pre.push(c).skip(j + 1) =~= pre.skip(j + 1).push(c));
                        assert(lines_of(pre.push(c)) == lines_of(pre.take(j)) + seq![pre.skip(j + 1).push(
                            c,
                        )]);
                        assert(lines_of(pre) == lines_of(pre.take(j)) + seq![pre.skip(j + 1)]);
                        assert(out_old.push(cur_old) == lines_of(pre.take(j)) + seq![pre.skip(
                            j + 1,
                        )]);
                        assert(cur_old == pre.skip(j + 1)) by {
                            assert((lines_of(pre.take(j)) + seq![pre.skip(j + 1)]).last()
                                == pre.skip(j + 1));
                        }
                        assert(out_old =~= lines_of(pre.take(j))) by {
                            assert((lines_of(pre.take(j)) + seq![pre.skip(j + 1)]).drop_last()
                                =~= lines_of(pre.take(j)));
                            assert((out_old.push(cur_old)).drop_last() =~= out_old);
                        }
                        assert(lines_of(pre.push(c)) =~= out_old.push(cur_old.push(c)));
                    },
                }
            }
            push_char(&mut cur, c);
            proof {
                assert(cur@ == cur_old.push(c));
            }
        }
        i = i + 1;
    }
    proof {
        assert(text@.take(n as int) =~= text@);
    }
    out.push(cur);
    out
}

/// The payload of a record line: the text between the tag (and its
/// following space) and the trailing two-character sentinel, with the
/// backslash artifact of the expansion step removed.  A line carrying
/// the tag but too short to hold a payload is malformed.
pub open spec fn line_payload(line: Seq<char>, tag: Seq<char>) -> Option<Seq<char>> {
    match find_sub(line, tag + " "@) {
        Option::Some(i) => {
            let start = i + tag.len() + 1;
            if start <= line.len() - 2 {
                Option::Some(remove_char(line.subrange(start, line.len() - 2), '\\'))
            } else {
                Option::None
            }
        },
        Option::None => Option::None,
    }
}

/// A line carries a record of this tag.
pub open spec fn line_has_tag(line: Seq<char>, tag: Seq<char>) -> bool {
    find_sub(line, tag + " "@) is Some
}

/// The payloads of all record lines of one tag, in order; `None` where
/// some record line is malformed.
pub open spec fn records_of(lines: Seq<Seq<char>>, tag: Seq<char>) -> Option<Seq<Seq<char>>>
    decreases lines.len(),
{
    if lines.len() == 0 {
        Option::Some(Seq::empty())
    } else if !line_has_tag(lines.first(), tag) {
        records_of(lines.drop_first(), tag)
    } else {
        match line_payload(lines.first(), tag) {
            Option::None => Option::None,
            Option::Some(p) => match records_of(lines.drop_first(), tag) {
                Option::Some(rest) => Option::Some(seq![p] + rest),
                Option::None => Option::None,
            },
        }
    }
}

/// Collect the record payloads of one tag out of the given lines.
pub fn scan_records(lines: &Vec<String>, tag: &str) -> (r: Option<Vec<String>>)
    ensures
        match r {
            Option::Some(ps) => records_of(lines.deep_view(), tag@) == Option::Some(ps.deep_view()),
            Option::None => records_of(lines.deep_view(), tag@) is None,
        },
{
    let ghost lv = lines.deep_view();
    let mut tag_sp = String::from_str(tag);
    tag_sp.append(" ");
    let pat = crate::strutil::str_to_chars(tag_sp.as_str());
    let tag_len: usize = tag.unicode_len();

    let mut out: Vec<String> = Vec::new();
    let mut i: usize = 0;
    proof {
        assert(lv.skip(0) =~= lv);
    }
    while i < lines.len()
        invariant
            lv == lines.deep_view(),
            lv.len() == lines@.len(),
            i <= lines@.len(),
            pat@ == tag@ + " "@,
            tag_len == tag@.len(),
            records_of(lv, tag@) == (match records_of(lv.skip(i as int), tag@) {
                Option::Some(rest) => Option::Some(out.deep_view() + rest),
                Option::None => Option::None::<Seq<Seq<char>>>,
            }),
        decreases lines@.len() - i,
    {
        let ghost out_old = out.deep_view();
        proof {
            assert(lv[i as int] == lines@[i as int]@);
            assert(lv.skip(i as int).first() == lv[i as int]);
            assert(lv.skip(i as int).drop_first() =~= lv.skip(i as int + 1));
        }
        let line = &lines[i];
        let chars = crate::strutil::str_to_chars(line.as_str());
        match find_sub_chars(&chars, &pat) {
            Option::None => {},
            Option::Some(pos) => {
                proof {
                    lemma_find_sub_first(chars@, pat@);
                    reveal_strlit(" ");
                    assert(pat@.len() == tag_len + 1);
                }
                let line_len = chars.len();
                let start = pos + tag_len + 1;
                if line_len < 2 || start > line_len - 2 {
                    return Option::None;
                }
                let payload_chars = crate::strutil::subvec_chars(&chars, start, line_len - 2);
                let payload_raw = crate::strutil::chars_to_string(&payload_chars);
                let payload = remove_char_exec(payload_raw.as_str(), '\\');
                out.push(payload);
                proof {
                    assert(line_payload(lv[i as int], tag@) == Option::Some(
                        remove_char(lv[i as int].subrange(start as int, lv[i as int].len() - 2), '\\'),
                    ));
                    assert(out.deep_view() =~= out_old.push(out@[out@.len() - 1]@));
                    match records_of(lv.skip(i as int + 1), tag@) {
                        Option::Some(rest) => {
                            assert(out_old + (seq![out@[out@.len() - 1]@] + rest) =~= out.deep_view()
                                + rest);
                        },
                        Option::None => {},
                    }
                }
            },
        }
        i = i + 1;
    }
    proof {
        assert(lv.skip(lv.len() as int) =~= Seq::<Seq<char>>::empty());
        assert(out.deep_view() + Seq::<Seq<char>>::empty() =~= out.deep_view());
    }
    Option::Some(out)
}

/// The package name carried by the first line that holds the
/// well-known constant declaration: the text between the declaration's
/// opening quote and the trailing two characters that close it.
pub open spec fn package_prefix() -> Seq<char> {
    "pub const JNI_PACKAGE_NAME: &str = \""@
}

pub open spec fn package_of(lines: Seq<Seq<char>>) -> Option<Seq<char>>
    decreases lines.len(),
{
    if lines.len() == 0 {
        Option::None
    } else if find_sub(lines.first(), package_prefix()) is Some {
        let i = find_sub(lines.first(), package_prefix()).unwrap();
        let start = i + package_prefix().len();
        if start <= lines.first().len() - 2 {
            Option::Some(lines.first().subrange(start, lines.first().len() - 2))
        } else {
            Option::None
        }
    } else {
        package_of(lines.drop_first())
    }
}

/// Find the package name among the given lines.
pub fn extract_package_name(lines: &Vec<String>) -> (r: Option<String>)
    ensures
        match r {
            Option::Some(p) => package_of(lines.deep_view()) == Option::Some(p@),
            Option::None => package_of(lines.deep_view()) is None,
        },
{
    let ghost lv = lines.deep_view();
    let prefix = "pub const JNI_PACKAGE_NAME: &str = \"";
    proof {
        reveal_strlit("pub const JNI_PACKAGE_NAME: &str = \"");
    }
    let pat = crate::strutil::str_to_chars(prefix);
    let plen: usize = prefix.unicode_len();
    let mut i: usize = 0;
    proof {
        assert(lv.skip(0) =~= lv);
    }
    while i < lines.len()
        invariant
            lv == lines.deep_view(),
            lv.len() == lines@.len(),
            i <= lines@.len(),
            pat@ == package_prefix(),
            plen == package_prefix().len(),
            package_of(lv) == package_of(lv.skip(i as int)),
        decreases lines@.len() - i,
    {
        proof {
            assert(lv[i as int] == lines@[i as int]@);
            assert(lv.skip(i as int).first() == lv[i as int]);
            assert(lv.skip(i as int).drop_first() =~= lv.skip(i as int + 1));
        }
        let line = &lines[i];
        let chars = crate::strutil::str_to_chars(line.as_str());
        match find_sub_chars(&chars, &pat) {
            Option::None => {},
            Option::Some(pos) => {
                proof {
                    lemma_find_sub_first(chars@, pat@);
                    assert(pat@.len() == plen);
                }
                let line_len = chars.len();
                let start = pos + plen;
                if line_len < 2 || start > line_len - 2 {
                    return Option::None;
                }
                let payload_chars = crate::strutil::subvec_chars(&chars, start, line_len - 2);
                let payload = crate::strutil::chars_to_string(&payload_chars);
                return Option::Some(payload);
            },
        }
        i = i + 1;
    }
    Option::None
}

/// The functions of the given owner, in order.
pub open spec fn fns_owned_by(fs: Seq<crate::ir::FunctionV>, owner: Seq<char>) -> Seq<
    crate::ir::FunctionV,
>
    decreases fs.len(),
{
    if fs.len() == 0 {
        Seq::empty()
    } else {
        fns_owned_by(fs.drop_last(), owner) + (if fs.last().owner_name == owner {
            seq![fs.last()]
        } else {
            Seq::empty()
        })
    }
}

/// Group the extracted functions under one owning entity.
pub fn functions_for_owner(fns: &Vec<crate::ir::Function>, owner: &str) -> (out: Vec<
    crate::ir::Function,
>)
    ensures
        out.deep_view() == fns_owned_by(fns.deep_view(), owner@),
{
    let ghost fv = fns.deep_view();
    let mut out: Vec<crate::ir::Function> = Vec::new();
    let mut i: usize = 0;
    proof {
        assert(fv.take(0) =~= Seq::<crate::ir::FunctionV>::empty());
    }
    while i < fns.len()
        invariant
            fv == fns.deep_view(),
            fv.len() == fns@.len(),
            i <= fns@.len(),
            out.deep_view() == fns_owned_by(fv.take(i as int), owner@),
        decreases fns@.len() - i,
    {
        let ghost old_dv = out.deep_view();
        proof {
            assert(fv[i as int] == fns@[i as int]@);
            assert(fv.take(i as int + 1).drop_last() =~= fv.take(i as int));
            assert(fv.take(i as int + 1).last() == fv[i as int]);
        }
        if crate::strutil::str_eq(fns[i].owner_name.as_str(), owner) {
            let f = fns[i].duplicate();
            out.push(f);
            proof {
                assert(out.deep_view() =~= old_dv.push(out@[out@.len() - 1]@));
                assert(out.deep_view() =~= old_dv + seq![fv[i as int]]);
            }
        } else {
            proof {
                assert(old_dv + Seq::<crate::ir::FunctionV>::empty() =~= old_dv);
            }
        }
        i = i + 1;
    }
    proof {
        assert(fv.take(fv.len() as int) =~= fv);
    }
    out
}

/// Where the last occurrence falls in a concatenation.
proof fn lemma_rfind_concat(a: Seq<char>, b: Seq<char>, c: char)
    ensures
        rfind_char(a + b, c) == (match rfind_char(b, c) {
            Option::Some(i) => Option::Some(a.len() + i),
            Option::None => rfind_char(a, c),
        }),
    decreases b.len(),
{
    if b.len() == 0 {
        assert(a + b =~= a);
    } else {
        assert((a + b).last() == b.last());
        if b.last() == c {
        } else {
            assert((a + b).drop_last() =~= a + b.drop_last());
            lemma_rfind_concat(a, b.drop_last(), c);
        }
    }
}

/// A character that occurs nowhere is not found.
proof fn lemma_rfind_none(s: Seq<char>, c: char)
    requires
        !has_char(s, c),
    ensures
        rfind_char(s, c) is None,
    decreases s.len(),
{
    if s.len() > 0 {
        assert(s.last() != c);
        assert(!has_char(s.drop_last(), c)) by {
            if has_char(s.drop_last(), c) {
                let i = choose|i: int| 0 <= i < s.drop_last().len() && s.drop_last()[i] == c;
                assert(s[i] == c);
            }
        }
        lemma_rfind_none(s.drop_last(), c);
    }
}

/// A newline after a line without one ends exactly that line.
proof fn lemma_lines_concat(x: Seq<char>, y: Seq<char>)
    requires
        !has_char(x, '\n'),
    ensures
        lines_of(x + seq!['\n'] + y) == seq![x] + lines_of(y),
    decreases y.len(),
{
    let nl = seq!['\n'];
    let t = x + nl + y;
    lemma_rfind_concat(x + nl, y, '\n');
    lemma_rfind_concat(x, nl, '\n');
    assert(nl.last() == '\n');
    assert(rfind_char(nl, '\n') == Option::Some(0int));
    lemma_rfind_none(x, '\n');
    match rfind_char(y, '\n') {
        Option::Some(j) => {
            lemma_rfind_bounds(y, '\n');
            assert(rfind_char(t, '\n') == Option::Some(x.len() + 1 + j));
            assert(t.take(x.len() + 1 + j) =~= x + nl + y.take(j));
            assert(t.skip(x.len() + 1 + j + 1) =~= y.skip(j + 1));
            lemma_lines_concat(x, y.take(j));
            assert(lines_of(y) == lines_of(y.take(j)) + seq![y.skip(j + 1)]);
            assert((seq![x] + lines_of(y.take(j))) + seq![y.skip(j + 1)] =~= seq![x] + (lines_of(
                y.take(j),
            ) + seq![y.skip(j + 1)]));
        },
        Option::None => {
            assert(rfind_char(t, '\n') == Option::Some(x.len() as int));
            assert(t.take(x.len() as int) =~= x);
            assert(t.skip(x.len() as int + 1) =~= y);
            assert(lines_of(x) == seq![x]);
        },
    }
}

/// The package name written at initialization is the package name the
/// scanner recovers: emitting the base definitions for any
/// newline-free package name and scanning the result yields that name
/// back.
pub proof fn lemma_package_round_trip(pkg: Seq<char>)
    requires
        !has_char(pkg, '\n'),
    ensures
        package_of(lines_of(crate::emit::jni_init_code_of(pkg))) == Option::Some(pkg),
{
    reveal_strlit("pub const JNI_PACKAGE_NAME: &str = \"");
    reveal_strlit("\";\n");
    reveal_strlit("\";");
    let prefix = package_prefix();
    let decl_line = prefix + pkg + "\";"@;
    let rest = crate::emit::init_trait_text();
    assert(crate::emit::jni_init_code_of(pkg) =~= decl_line + seq!['\n'] + rest);
    assert(!has_char(decl_line, '\n')) by {
        if has_char(decl_line, '\n') {
            let i = choose|i: int| 0 <= i < decl_line.len() && decl_line[i] == '\n';
            if i < prefix.len() {
                assert(prefix[i] == '\n');
            } else if i < prefix.len() + pkg.len() {
                assert(pkg[i - prefix.len()] == '\n');
                assert(has_char(pkg, '\n'));
            } else {
                assert(("\";"@)[i - prefix.len() - pkg.len()] == '\n');
            }
        }
    }
    lemma_lines_concat(decl_line, rest);
    let lines = lines_of(crate::emit::jni_init_code_of(pkg));
    assert(lines == seq![decl_line] + lines_of(rest));
    assert(lines.len() > 0);
    assert(lines.first() == decl_line);
    assert(decl_line.take(prefix.len() as int) =~= prefix);
    assert(find_sub(decl_line, prefix) == Option::Some(0int));
    assert(decl_line.len() == prefix.len() + pkg.len() + 2);
    assert(decl_line.subrange(prefix.len() as int, decl_line.len() - 2) =~= pkg);
}

} // verus!
