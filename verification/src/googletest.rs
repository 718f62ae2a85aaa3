//! The pure half of driving a GoogleTest executable: the arguments to pass,
//! the parser for `--gtest_list_tests` output, and the filter a selection
//! resolves to. Spawning the process and reading its output is the
//! caller's work.

use crate::catalog::AvailableTests;
use crate::config::Only;
use crate::config::TestRunnerOpt;
use crate::errors::Error;
use crate::strutil::all_digits;
use crate::strutil::digit_val;
use crate::strutil::digits_val;
use crate::strutil::is_digit;
use crate::strutil::lemma_digits_val_nonneg;
use crate::strutil::parse_digits;
use vstd::prelude::*;

verus! {

/// The index of the first `.` of the sequence, or its length if it has
/// none.
pub open spec fn dot_index(s: Seq<char>) -> nat
    decreases s.len(),
{
    if s.len() == 0 {
        0
    } else if s[0] == '.' {
        0
    } else {
        1 + dot_index(s.drop_first())
    }
}

/// A prefix free of dots, ended by a dot or the end of the sequence, ends
/// exactly at the first dot.
proof fn lemma_dot_index(s: Seq<char>, i: int)
    requires
        0 <= i <= s.len(),
        forall|k: int| 0 <= k < i ==> s[k] != '.',
        i == s.len() || s[i] == '.',
    ensures
        dot_index(s) == i,
    decreases i,
{
    if i == 0 {
    } else {
        assert(s[0] != '.');
        assert forall|k: int| 0 <= k < i - 1 implies s.drop_first()[k] != '.' by {
            assert(s.drop_first()[k] == s[k + 1]);
        }
        assert(i - 1 == s.drop_first().len() || s.drop_first()[i - 1] == '.');
        lemma_dot_index(s.drop_first(), i - 1);
    }
}

/// The suite name on a suite line: everything before the first dot.
pub open spec fn suite_of_line(line: Seq<char>) -> Seq<char> {
    line.take(dot_index(line) as int)
}

/// The case name on a case line: everything after the two-space indent.
pub open spec fn case_of_line(line: Seq<char>) -> Seq<char> {
    if line.len() >= 2 {
        line.skip(2)
    } else {
        Seq::empty()
    }
}

/// Take the characters of a name up to the first dot.
pub fn extract_test_suite_name(s: &str) -> (r: String)
    ensures
        r@ == suite_of_line(s@),
{
    let n = s.unicode_len();
    let mut i: usize = 0;
    while i < n
        invariant
            i <= n,
            n == s@.len(),
            forall|k: int| 0 <= k < i ==> s@[k] != '.',
        decreases n - i,
    {
        if s.get_char(i) == '.' {
            proof {
                lemma_dot_index(s@, i as int);
            }
            return s.substring_char(0, i).to_owned();
        }
        i = i + 1;
    }
    proof {
        lemma_dot_index(s@, n as int);
        assert(s@.take(n as int) =~= s@);
    }
    s.to_owned()
}

/// Drop the two-space indent of a case line.
pub fn extract_test_case_name(s: &str) -> (r: String)
    ensures
        r@ == case_of_line(s@),
{
    let n = s.unicode_len();
    if n >= 2 {
        s.substring_char(2, n).to_owned()
    } else {
        String::new()
    }
}

/// The index of the first newline at or after `i`.
pub open spec fn newline_index(s: Seq<char>, i: int) -> int
    decreases s.len() - i,
{
    if i < 0 || i >= s.len() {
        s.len() as int
    } else if s[i] == '\n' {
        i
    } else {
        newline_index(s, i + 1)
    }
}

/// A newline-free stretch ended by a newline or the end locates the first
/// newline.
proof fn lemma_newline_index(s: Seq<char>, i: int, j: int)
    requires
        0 <= i <= j <= s.len(),
        forall|k: int| i <= k < j ==> s[k] != '\n',
        j == s.len() || s[j] == '\n',
    ensures
        newline_index(s, i) == j,
    decreases j - i,
{
    if i < j {
        lemma_newline_index(s, i + 1, j);
    }
}

/// The first newline at or after `i` is between `i` and the end.
proof fn lemma_newline_index_le(s: Seq<char>, i: int)
    requires
        0 <= i <= s.len(),
    ensures
        i <= newline_index(s, i) <= s.len(),
    decreases s.len() - i,
{
    if i < s.len() && s[i] != '\n' {
        lemma_newline_index_le(s, i + 1);
    }
}

/// A line with its trailing carriage return removed, as `str::lines` does.
pub open spec fn strip_cr(l: Seq<char>) -> Seq<char> {
    if l.len() > 0 && l.last() == '\r' {
        l.drop_last()
    } else {
        l
    }
}

/// The lines of a text: split at each newline, a trailing carriage return
/// stripped from each line, and no empty line after a final newline.
pub open spec fn line_split_from(s: Seq<char>, i: int) -> Seq<Seq<char>>
    decreases s.len() - i,
    via line_split_from_dec
{
    if i < 0 || i >= s.len() {
        Seq::empty()
    } else {
        let j = newline_index(s, i);
        if j >= s.len() {
            seq![strip_cr(s.subrange(i, s.len() as int))]
        } else if j + 1 > s.len() - 1 {
            seq![strip_cr(s.subrange(i, j))]
        } else {
            seq![strip_cr(s.subrange(i, j))] + line_split_from(s, j + 1)
        }
    }
}

#[via_fn]
proof fn line_split_from_dec(s: Seq<char>, i: int) {
    if 0 <= i < s.len() {
        lemma_newline_index_le(s, i);
    }
}

/// The lines of a text.
pub open spec fn line_split(s: Seq<char>) -> Seq<Seq<char>> {
    line_split_from(s, 0)
}

/// Split a text into its lines.
pub fn split_lines(s: &str) -> (r: Vec<String>)
    ensures
        r@.len() == line_split(s@).len(),
        forall|i: int| 0 <= i < r@.len() ==> #[trigger] r@[i]@ == line_split(s@)[i],
{
    let n = s.unicode_len();
    let mut r: Vec<String> = Vec::new();
    let mut pos: usize = 0;
    while pos < n
        invariant
            pos <= n,
            n == s@.len(),
            line_split(s@) == r@.map_values(|x: String| x@) + line_split_from(s@, pos as int),
        decreases n - pos,
    {
        let mut j: usize = pos;
        while j < n && s.get_char(j) != '\n'
            invariant
                pos <= j <= n,
                n == s@.len(),
                forall|k: int| pos <= k < j ==> s@[k] != '\n',
            decreases n - j,
        {
            j = j + 1;
        }
        proof {
            lemma_newline_index(s@, pos as int, j as int);
        }
        let mut end = j;
        if end > pos && s.get_char(end - 1) == '\r' {
            end = end - 1;
        }
        let line = s.substring_char(pos, end).to_owned();
        proof {
            let raw = s@.subrange(pos as int, j as int);
            if j > pos && s@[j - 1] == '\r' {
                assert(raw.len() > 0 && raw.last() == '\r');
                assert(line@ =~= raw.drop_last());
            } else {
                assert(line@ =~= strip_cr(raw));
            }
            if j as int >= s@.len() {
                assert(s@.subrange(pos as int, s@.len() as int) == raw);
            }
        }
        let ghost old_r = r@;
        r.push(line);
        proof {
            assert(r@.map_values(|x: String| x@) =~= old_r.map_values(|x: String| x@).push(
                line@,
            ));
            if j == n {
                assert(line_split_from(s@, pos as int) =~= seq![line@]);
                assert(line_split(s@) =~= r@.map_values(|x: String| x@) + line_split_from(
                    s@,
                    n as int,
                ));
            } else {
                if j + 1 > n - 1 {
                    assert(line_split_from(s@, pos as int) =~= seq![line@]);
                    assert(line_split_from(s@, j + 1) =~= Seq::<Seq<char>>::empty());
                    assert(line_split(s@) =~= r@.map_values(|x: String| x@) + line_split_from(
                        s@,
                        j + 1,
                    ));
                } else {
                    assert(line_split_from(s@, pos as int) =~= seq![line@] + line_split_from(
                        s@,
                        j + 1,
                    ));
                    assert(line_split(s@) =~= r@.map_values(|x: String| x@) + line_split_from(
                        s@,
                        j + 1,
                    ));
                }
            }
        }
        pos = if j < n {
            j + 1
        } else {
            n
        };
    }
    proof {
        assert(line_split_from(s@, pos as int) =~= Seq::<Seq<char>>::empty());
        assert(line_split(s@) =~= r@.map_values(|x: String| x@));
    }
    r
}

/// The (suite, case) pairs the list output declares from line `i` on, the
/// current suite being `cur`: an indented line names a case of the current
/// suite, any other non-empty line opens a suite.
pub open spec fn gtest_pairs_from(
    lines: Seq<Seq<char>>,
    i: int,
    cur: Option<Seq<char>>,
) -> Seq<(Seq<char>, Seq<char>)>
    decreases lines.len() - i,
{
    if i < 0 || i >= lines.len() {
        Seq::empty()
    } else {
        let line = lines[i];
        if line.len() == 0 {
            gtest_pairs_from(lines, i + 1, cur)
        } else if line[0] == ' ' {
            match cur {
                Some(suite) => seq![(suite, case_of_line(line))] + gtest_pairs_from(
                    lines,
                    i + 1,
                    cur,
                ),
                None => gtest_pairs_from(lines, i + 1, cur),
            }
        } else {
            gtest_pairs_from(lines, i + 1, Some(suite_of_line(line)))
        }
    }
}

/// The (suite, case) pairs the whole list output declares; its first line
/// is banner text and is skipped.
pub open spec fn gtest_pairs(s: Seq<char>) -> Seq<(Seq<char>, Seq<char>)> {
    gtest_pairs_from(line_split(s), 1, None)
}

/// The pairs a catalog's flat list carries.
pub open spec fn catalog_pairs(c: &AvailableTests) -> Seq<(Seq<char>, Seq<char>)> {
    c.list_view().map_values(|v: crate::identity::FqView| (v.suite, v.case))
}

/// Parse the output of a GoogleTest `--gtest_list_tests` run into the
/// catalog it declares.
pub fn parse_available_tests(s: &str) -> (r: Result<AvailableTests, Error>)
    ensures
        r matches Ok(tests) && tests.wf() && catalog_pairs(&tests) == gtest_pairs(s@),
{
    let lines = split_lines(s);
    let ghost linesv = line_split(s@);
    let mut tests = AvailableTests::new();
    let mut current: Option<String> = None;
    let mut i: usize = 1;
    proof {
        assert(catalog_pairs(&tests) =~= Seq::<(Seq<char>, Seq<char>)>::empty());
        assert(catalog_pairs(&tests) + gtest_pairs_from(linesv, 1, None) =~= gtest_pairs_from(
            linesv,
            1,
            None,
        ));
    }
    while i < lines.len()
        invariant
            1 <= i,
            i <= lines@.len() || i == 1,
            lines@.len() == linesv.len(),
            forall|k: int| 0 <= k < linesv.len() ==> #[trigger] lines@[k]@ == linesv[k],
            tests.wf(),
            tests.list_view().len() <= i,
            gtest_pairs(s@) == catalog_pairs(&tests) + gtest_pairs_from(
                linesv,
                i as int,
                match &current {
                    Some(cs) => Some(cs@),
                    None => None,
                },
            ),
        decreases lines@.len() - i,
    {
        let ghost curv: Option<Seq<char>> = match &current {
            Some(cs) => Some(cs@),
            None => None,
        };
        let line = &lines[i];
        let line_len = line.as_str().unicode_len();
        if line_len == 0 {
            proof {
                assert(gtest_pairs_from(linesv, i as int, curv) == gtest_pairs_from(
                    linesv,
                    i + 1,
                    curv,
                ));
            }
        } else if line.as_str().get_char(0) == ' ' {
            match &current {
                Some(suite) => {
                    let case_name = extract_test_case_name(line.as_str());
                    let suite_name = suite.clone();
                    let ghost old_pairs = catalog_pairs(&tests);
                    tests.push(suite_name, case_name);
                    proof {
                        assert(catalog_pairs(&tests) =~= old_pairs.push(
                            (curv.unwrap(), case_of_line(linesv[i as int])),
                        ));
                        assert(gtest_pairs_from(linesv, i as int, curv) =~= seq![
                            (curv.unwrap(), case_of_line(linesv[i as int])),
                        ] + gtest_pairs_from(linesv, i + 1, curv));
                        assert(old_pairs + (seq![
                            (curv.unwrap(), case_of_line(linesv[i as int])),
                        ] + gtest_pairs_from(linesv, i + 1, curv)) =~= catalog_pairs(&tests)
                            + gtest_pairs_from(linesv, i + 1, curv));
                    }
                },
                None => {
                    proof {
                        assert(gtest_pairs_from(linesv, i as int, curv) == gtest_pairs_from(
                            linesv,
                            i + 1,
                            curv,
                        ));
                    }
                },
            }
        } else {
            let suite_name = extract_test_suite_name(line.as_str());
            current = Some(suite_name);
            proof {
                assert(gtest_pairs_from(linesv, i as int, curv) == gtest_pairs_from(
                    linesv,
                    i + 1,
                    Some(suite_of_line(linesv[i as int])),
                ));
            }
        }
        i = i + 1;
    }
    proof {
        assert(gtest_pairs_from(
            linesv,
            i as int,
            match &current {
                Some(cs) => Some(cs@),
                None => None,
            },
        ) =~= Seq::<(Seq<char>, Seq<char>)>::empty());
    }
    Ok(tests)
}

/// The milliseconds a fraction part denotes: its first three digits,
/// scaled, rounded up when the fourth digit says so.
pub open spec fn frac_millis(frac: Seq<char>) -> int {
    let scaled = if frac.len() == 0 {
        0
    } else if frac.len() == 1 {
        digits_val(frac) * 100
    } else if frac.len() == 2 {
        digits_val(frac) * 10
    } else {
        digits_val(frac.take(3))
    };
    if frac.len() >= 4 && digit_val(frac[3]) >= 5 {
        scaled + 1
    } else {
        scaled
    }
}

/// The milliseconds a decimal number of seconds denotes: whole seconds,
/// optionally a dot and a fraction, at least one digit in all.
pub open spec fn spec_seconds_millis(body: Seq<char>) -> Option<int> {
    let d = dot_index(body) as int;
    if d == body.len() {
        if body.len() > 0 && all_digits(body) {
            Some(digits_val(body) * 1000)
        } else {
            None
        }
    } else {
        let intpart = body.take(d);
        let frac = body.skip(d + 1);
        if (intpart.len() > 0 || frac.len() > 0) && all_digits(intpart) && all_digits(frac) {
            Some(digits_val(intpart) * 1000 + frac_millis(frac))
        } else {
            None
        }
    }
}

/// The milliseconds a GoogleTest duration field denotes: a decimal number
/// of seconds followed by one unit character, the whole value fitting in
/// 64 bits of milliseconds.
pub open spec fn spec_duration_millis(s: Seq<char>) -> Option<int> {
    if s.len() < 2 {
        None
    } else {
        match spec_seconds_millis(s.drop_last()) {
            Some(v) => if v <= u64::MAX {
                Some(v)
            } else {
                None
            },
            None => None,
        }
    }
}

/// Parse a GoogleTest duration field, such as `1s`, into milliseconds.
pub fn parse_duration_millis(s: &str) -> (r: Option<u64>)
    ensures
        match r {
            Some(v) => spec_duration_millis(s@) == Some(v as int),
            None => spec_duration_millis(s@) is None,
        },
{
    let n = s.unicode_len();
    if n < 2 {
        return None;
    }
    let m = n - 1;
    let ghost body = s@.drop_last();
    proof {
        assert(body =~= s@.subrange(0, m as int));
        assert(forall|k: int| 0 <= k < m ==> #[trigger] body[k] == s@[k]);
    }
    let mut d: usize = 0;
    while d < m && s.get_char(d) != '.'
        invariant
            d <= m,
            m + 1 == n,
            n == s@.len(),
            forall|k: int| 0 <= k < d ==> s@[k] != '.',
        decreases m - d,
    {
        d = d + 1;
    }
    proof {
        assert(forall|k: int| 0 <= k < d ==> #[trigger] body[k] != '.');
        lemma_dot_index(body, d as int);
    }
    if d == m {
        match parse_digits(s, 0, m) {
            None => {
                proof {
                    assert(s@.subrange(0, m as int) == body);
                    if all_digits(body) {
                        lemma_digits_val_nonneg(body);
                        assert(digits_val(body) * 1000 > u64::MAX) by (nonlinear_arith)
                            requires
                                digits_val(body) > u64::MAX,
                        ;
                    }
                }
                None
            },
            Some(v) => {
                proof {
                    assert(s@.subrange(0, m as int) == body);
                }
                if v > u64::MAX / 1000 {
                    proof {
                        assert((v as int) * 1000 > u64::MAX) by (nonlinear_arith)
                            requires
                                (v as int) > (u64::MAX as int) / 1000,
                                v >= 0,
                        ;
                    }
                    None
                } else {
                    proof {
                        assert((v as int) * 1000 <= u64::MAX) by (nonlinear_arith)
                            requires
                                (v as int) <= (u64::MAX as int) / 1000,
                                v >= 0,
                        ;
                    }
                    Some(v * 1000)
                }
            },
        }
    } else {
        let frac_from = d + 1;
        let ghost intpart = body.take(d as int);
        let ghost frac = body.skip(d as int + 1);
        proof {
            assert(intpart =~= s@.subrange(0, d as int));
            assert(frac =~= s@.subrange(d + 1, m as int));
        }
        if d == 0 && frac_from == m {
            return None;
        }
        let mut k: usize = frac_from;
        while k < m
            invariant
                frac_from <= k <= m,
                2 <= n == s@.len(),
                m + 1 == n,
                frac_from == d + 1,
                d < m,
                body == s@.drop_last(),
                dot_index(body) == d,
                frac =~= s@.subrange(d + 1, m as int),
                frac == body.skip(d as int + 1),
                forall|j: int| 0 <= j < k - frac_from ==> is_digit(#[trigger] frac[j]),
            decreases m - k,
        {
            let c = s.get_char(k);
            proof {
                assert(frac[k - frac_from] == s@[k as int]);
            }
            if !(('0' as u32) <= (c as u32) && (c as u32) <= ('9' as u32)) {
                proof {
                    assert(!is_digit(frac[k - frac_from]));
                }
                return None;
            }
            k = k + 1;
        }
        proof {
            assert(all_digits(frac));
        }
        let frac_len = m - frac_from;
        let f3_to = if frac_len >= 3 {
            frac_from + 3
        } else {
            m
        };
        let f3 = match parse_digits(s, frac_from, f3_to) {
            Some(v) => v,
            None => {
                proof {
                    let sub = s@.subrange(frac_from as int, f3_to as int);
                    assert(forall|j: int| 0 <= j < sub.len() ==> #[trigger] sub[j] == frac[j]);
                    assert(all_digits(sub));
                    assert(sub.len() <= 3);
                    lemma_digits_small(sub);
                }
                return None;
            },
        };
        proof {
            let sub = s@.subrange(frac_from as int, f3_to as int);
            assert(forall|j: int| 0 <= j < sub.len() ==> #[trigger] sub[j] == frac[j]);
            if frac_len >= 3 {
                assert(sub =~= frac.take(3));
            } else {
                assert(sub =~= frac);
            }
            lemma_digits_small(sub);
        }
        let scaled: u64 = if frac_len == 0 {
            0
        } else if frac_len == 1 {
            f3 * 100
        } else if frac_len == 2 {
            f3 * 10
        } else {
            f3
        };
        let mut round_up = false;
        if frac_len >= 4 {
            let c4 = s.get_char(frac_from + 3);
            proof {
                assert(frac[3] == s@[frac_from + 3]);
            }
            round_up = (c4 as u32) >= ('5' as u32);
        }
        let fm: u64 = if round_up {
            scaled + 1
        } else {
            scaled
        };
        proof {
            assert(fm as int == frac_millis(frac));
            assert(fm <= 1000);
        }
        match parse_digits(s, 0, d) {
            None => {
                proof {
                    assert(s@.subrange(0, d as int) == intpart);
                    if all_digits(intpart) {
                        lemma_digits_val_nonneg(intpart);
                        assert(digits_val(intpart) * 1000 + frac_millis(frac) > u64::MAX)
                            by (nonlinear_arith)
                            requires
                                digits_val(intpart) > u64::MAX,
                                frac_millis(frac) >= 0,
                        ;
                        assert(frac_millis(frac) >= 0) by {
                            lemma_frac_millis_nonneg(frac);
                        }
                    }
                }
                None
            },
            Some(v) => {
                proof {
                    assert(s@.subrange(0, d as int) == intpart);
                    lemma_frac_millis_nonneg(frac);
                }
                if v > (u64::MAX - fm) / 1000 {
                    proof {
                        assert((v as int) * 1000 + (fm as int) > u64::MAX) by (nonlinear_arith)
                            requires
                                (v as int) > ((u64::MAX as int) - (fm as int)) / 1000,
                                v >= 0,
                                0 <= (fm as int) <= 1000,
                        ;
                    }
                    None
                } else {
                    proof {
                        assert((v as int) * 1000 + (fm as int) <= u64::MAX) by (nonlinear_arith)
                            requires
                                (v as int) <= ((u64::MAX as int) - (fm as int)) / 1000,
                                v >= 0,
                                0 <= (fm as int) <= 1000,
                        ;
                    }
                    Some(v * 1000 + fm)
                }
            },
        }
    }
}

/// A digit sequence of at most three digits is below a thousand, and
/// shorter ones are smaller still.
proof fn lemma_digits_small(s: Seq<char>)
    requires
        all_digits(s),
        s.len() <= 3,
    ensures
        0 <= digits_val(s) < 1000,
        s.len() == 0 ==> digits_val(s) == 0,
        s.len() <= 1 ==> digits_val(s) < 10,
        s.len() <= 2 ==> digits_val(s) < 100,
    decreases s.len(),
{
    if s.len() > 0 {
        assert(forall|i: int|
            0 <= i < s.drop_last().len() ==> #[trigger] s.drop_last()[i] == s[i]);
        lemma_digits_small(s.drop_last());
    }
}

/// The fraction part of a duration is at most a whole second.
proof fn lemma_frac_millis_nonneg(frac: Seq<char>)
    requires
        all_digits(frac),
    ensures
        0 <= frac_millis(frac) <= 1000,
{
    if frac.len() >= 3 {
        assert(forall|j: int| 0 <= j < 3 ==> #[trigger] frac.take(3)[j] == frac[j]);
        lemma_digits_small(frac.take(3));
    } else {
        lemma_digits_small(frac);
    }
}

/// Parse a GoogleTest duration field, such as `1s`, into a duration.
pub fn parse_duration(s: &str) -> (r: Option<std::time::Duration>)
    ensures
        r is Some <==> spec_duration_millis(s@) is Some,
{
    match parse_duration_millis(s) {
        Some(millis) => Some(crate::duration::duration_from_millis(millis)),
        None => None,
    }
}

/// The arguments that make a GoogleTest executable list its tests.
pub fn add_list_argv(argv: Vec<String>) -> (r: Vec<String>)
    ensures
        r@.len() == argv@.len() + 2,
        forall|i: int| 0 <= i < argv@.len() ==> #[trigger] r@[i] == argv@[i],
        r@[argv@.len() as int]@ == "--gtest_list_tests"@,
        r@[argv@.len() as int + 1]@ == "--gtest_color=no"@,
{
    let mut argv = argv;
    argv.push(String::from_str("--gtest_list_tests"));
    argv.push(String::from_str("--gtest_color=no"));
    argv
}

/// The arguments that make a GoogleTest executable run and write its JSON
/// report to `report_path`.
pub fn add_run_argv(argv: Vec<String>, report_path: &str) -> (r: Vec<String>)
    ensures
        r@.len() == argv@.len() + 2,
        forall|i: int| 0 <= i < argv@.len() ==> #[trigger] r@[i] == argv@[i],
        r@[argv@.len() as int]@ == "--gtest_output=json:"@ + report_path@,
        r@[argv@.len() as int + 1]@ == "--gtest_color=no"@,
{
    let mut argv = argv;
    let mut out = String::from_str("--gtest_output=json:");
    out.append(report_path);
    argv.push(out);
    argv.push(String::from_str("--gtest_color=no"));
    argv
}

/// The `suite.case` filter a selection resolves to against the catalog:
/// none for a full run, the indexed case's pair for a selection by index,
/// the identified case's pair for a selection by identity.
pub fn make_test_filter(opt: &TestRunnerOpt, tests: &AvailableTests) -> (r: Option<String>)
    ensures
        match opt.only {
            Only::All => r is None,
            Only::SingleByIndex(index) => {
                &&& (index < tests.list_view().len() ==> (r matches Some(f) && f@
                    == tests.list_view()[index as int].suite + "."@ + tests.list_view()[
                    index as int].case))
                &&& (index >= tests.list_view().len() ==> r is None)
            },
            Only::SingleByFqtc(id) => {
                &&& ((exists|i: int|
                    0 <= i < tests.list_view().len() && (#[trigger] tests.list_view()[i]).id
                        == id.0) ==> (r matches Some(f) && exists|i: int|
                    0 <= i < tests.list_view().len() && (#[trigger] tests.list_view()[i]).id == id.0
                        && f@ == tests.list_view()[i].suite + "."@ + tests.list_view()[i].case))
                &&& ((forall|i: int|
                    0 <= i < tests.list_view().len() ==> (#[trigger] tests.list_view()[i]).id
                        != id.0) ==> r is None)
            },
        },
{
    match opt.only {
        Only::All => None,
        Only::SingleByIndex(index) => {
            match tests.get(index) {
                Some(fqtc) => Some(fqtc.to_string()),
                None => None,
            }
        },
        Only::SingleByFqtc(id) => {
            let list = tests.iter();
            let mut i: usize = 0;
            while i < list.len()
                invariant
                    opt.only == Only::SingleByFqtc(id),
                    i <= list@.len(),
                    crate::catalog::fq_views(list@) == tests.list_view(),
                    forall|k: int|
                        0 <= k < i ==> (#[trigger] tests.list_view()[k]).id != id.0,
                decreases list@.len() - i,
            {
                proof {
                    assert(tests.list_view()[i as int] == list@[i as int]@);
                }
                if list[i].id.0 == id.0 {
                    let filter = list[i].to_string();
                    proof {
                        assert(tests.list_view()[i as int].id == id.0);
                        assert(filter@ == tests.list_view()[i as int].suite + "."@
                            + tests.list_view()[i as int].case);
                    }
                    return Some(filter);
                }
                i = i + 1;
            }
            None
        },
    }
}

} // verus!
