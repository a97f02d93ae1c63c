//! The filter engine: which lines of a text a configuration selects, and
//! what is reported of them.

use vstd::prelude::*;
use crate::config::Config;
use crate::text::{chars_of, contains, dec_of, lines_of, push_decimal, split_lines, string_of};

verus! {

broadcast use vstd::string::group_string_axioms;

/// The lower-case form of a text, as `str::to_lowercase` gives it.
pub uninterp spec fn lower_of(s: Seq<char>) -> Seq<char>;

/// Relies on `str::to_lowercase`, whose result depends on the characters
/// of its argument alone.
#[verifier::external_body]
fn lowercase(s: &str) -> (r: String)
    ensures
        r@ == lower_of(s@),
{
    s.to_lowercase()
}

/// Whether a line is selected, given the case-folded forms of the pattern
/// and of the line: the line holds the pattern (compared folded when
/// `ignore_case` is set), inverted when `reversed` is set. The empty
/// pattern is held by every line.
pub open spec fn selected_with(
    config: Config,
    line: Seq<char>,
    folded_pattern: Seq<char>,
    folded_line: Seq<char>,
) -> bool {
    let held = config.pattern@.len() == 0 || if config.ignore_case {
        contains(folded_line, folded_pattern)
    } else {
        contains(line, config.pattern@)
    };
    if config.reversed {
        !held
    } else {
        held
    }
}

/// The line holds the pattern, case-folded when `ignore_case` is set.
pub open spec fn holds_pattern(config: Config, line: Seq<char>) -> bool {
    config.pattern@.len() == 0 || if config.ignore_case {
        contains(lower_of(line), lower_of(config.pattern@))
    } else {
        contains(line, config.pattern@)
    }
}

/// Whether `config` selects `line`.
pub open spec fn selects(config: Config, line: Seq<char>) -> bool {
    selected_with(config, line, lower_of(config.pattern@), lower_of(line))
}

/// The selected lines among the first `n` of `lines`, with their 0-based
/// indices, in order.
pub open spec fn matches_within(config: Config, lines: Seq<Seq<char>>, n: int) -> Seq<
    (int, Seq<char>),
>
    decreases n,
{
    if n <= 0 {
        seq![]
    } else {
        let prev = matches_within(config, lines, n - 1);
        if selects(config, lines[n - 1]) {
            prev.push((n - 1, lines[n - 1]))
        } else {
            prev
        }
    }
}

/// The selected lines of `content`, with their 0-based indices, in order.
pub open spec fn matching(config: Config, content: Seq<char>) -> Seq<(int, Seq<char>)> {
    matches_within(config, lines_of(content), lines_of(content).len() as int)
}

/// Line `i` is among the selected ones of `m`.
pub open spec fn listed(m: Seq<(int, Seq<char>)>, i: int) -> bool {
    exists|k: int| 0 <= k < m.len() && (#[trigger] m[k]).0 == i
}

/// How a selected line is reported in search mode.
pub open spec fn render(config: Config, m: (int, Seq<char>)) -> Seq<char> {
    if config.line_number {
        dec_of((m.0 + 1) as nat) + seq![' ', ':', ' '] + m.1
    } else {
        m.1
    }
}

/// What search mode reports on `content`.
pub open spec fn search_output(config: Config, content: Seq<char>) -> Seq<Seq<char>> {
    let m = matching(config, content);
    Seq::new(m.len(), |k: int| render(config, m[k]))
}

/// The one line count mode reports.
pub open spec fn count_line(total: nat) -> Seq<char> {
    "There is(are) "@ + dec_of(total) + " line(s) in the file that match the pattern."@
}

/// The selected lines are exactly the lines that `config` selects, each
/// with its own index, in the order of the text.
pub proof fn lemma_matches_within(config: Config, lines: Seq<Seq<char>>, n: int)
    requires
        0 <= n <= lines.len(),
    ensures
        forall|k: int|
            0 <= k < matches_within(config, lines, n).len() ==> {
                let e = #[trigger] matches_within(config, lines, n)[k];
                &&& 0 <= e.0 < n
                &&& e.1 == lines[e.0]
                &&& selects(config, lines[e.0])
            },
        forall|k1: int, k2: int|
            0 <= k1 < k2 < matches_within(config, lines, n).len() ==> (#[trigger] matches_within(
                config,
                lines,
                n,
            )[k1]).0 < (#[trigger] matches_within(config, lines, n)[k2]).0,
        forall|i: int|
            0 <= i < n ==> (#[trigger] listed(matches_within(config, lines, n), i) <==> selects(
                config,
                lines[i],
            )),
    decreases n,
{
    if n > 0 {
        lemma_matches_within(config, lines, n - 1);
        let prev = matches_within(config, lines, n - 1);
        let m = matches_within(config, lines, n);
        assert forall|i: int| 0 <= i < n && selects(config, lines[i]) implies #[trigger] listed(
            m,
            i,
        ) by {
            if i < n - 1 {
                assert(listed(prev, i));
                let k = choose|k: int| 0 <= k < prev.len() && (#[trigger] prev[k]).0 == i;
                assert(m[k] == prev[k]);
            } else {
                assert(m[prev.len() as int].0 == i);
            }
        }
        assert forall|i: int| 0 <= i < n && #[trigger] listed(m, i) implies selects(
            config,
            lines[i],
        ) by {
            let k = choose|k: int| 0 <= k < m.len() && (#[trigger] m[k]).0 == i;
            assert(m[k].1 == lines[m[k].0]);
        }
    }
}

/// Two configurations that agree on the pattern, `ignore_case` and
/// `reversed` select the same lines: the output flags play no part.
pub proof fn lemma_matching_ignores_output_flags(
    a: Config,
    b: Config,
    lines: Seq<Seq<char>>,
    n: int,
)
    requires
        a.pattern@ == b.pattern@,
        a.ignore_case == b.ignore_case,
        a.reversed == b.reversed,
    ensures
        matches_within(a, lines, n) == matches_within(b, lines, n),
    decreases n,
{
    if n > 0 {
        lemma_matching_ignores_output_flags(a, b, lines, n - 1);
    }
}

/// Without `reversed`, every selected line holds the pattern (case-folded
/// when `ignore_case` is set), and every line left out does not.
pub proof fn lemma_selected_lines_hold_pattern(config: Config, content: Seq<char>)
    requires
        !config.reversed,
    ensures
        forall|k: int|
            0 <= k < matching(config, content).len() ==> holds_pattern(
                config,
                (#[trigger] matching(config, content)[k]).1,
            ),
        forall|i: int|
            0 <= i < lines_of(content).len() && !listed(matching(config, content), i)
                ==> !holds_pattern(config, #[trigger] lines_of(content)[i]),
{
    let lines = lines_of(content);
    lemma_matches_within(config, lines, lines.len() as int);
    assert forall|i: int|
        0 <= i < lines.len() && !listed(matching(config, content), i) implies !holds_pattern(
        config,
        #[trigger] lines[i],
    ) by {
        assert(listed(matches_within(config, lines, lines.len() as int), i) <==> selects(
            config,
            lines[i],
        ));
    }
}

/// With `reversed`, the selected lines are exactly those that the same
/// configuration without `reversed` leaves out.
pub proof fn lemma_reversed_is_complement(config: Config, content: Seq<char>)
    requires
        config.reversed,
    ensures
        forall|i: int|
            0 <= i < lines_of(content).len() ==> (listed(matching(config, content), i) <==> !listed(
                matching(
                    Config {
                        file_path: config.file_path,
                        pattern: config.pattern,
                        ignore_case: config.ignore_case,
                        reversed: false,
                        line_number: config.line_number,
                        count: config.count,
                    },
                    content,
                ),
                i,
            )),
{
    let plain = Config {
        file_path: config.file_path,
        pattern: config.pattern,
        ignore_case: config.ignore_case,
        reversed: false,
        line_number: config.line_number,
        count: config.count,
    };
    let lines = lines_of(content);
    lemma_matches_within(config, lines, lines.len() as int);
    lemma_matches_within(plain, lines, lines.len() as int);
    assert forall|i: int| 0 <= i < lines.len() implies (listed(matching(config, content), i)
        <==> !listed(matching(plain, content), i)) by {
        assert(listed(matching(config, content), i) <==> selects(config, lines[i]));
        assert(listed(matching(plain, content), i) <==> selects(plain, lines[i]));
    }
}

/// Count mode counts exactly the lines that search mode reports, for the
/// same configuration with `count` set either way.
pub proof fn lemma_count_equals_search_length(config: Config, content: Seq<char>, count: bool)
    ensures
        matching(config, content).len() == search_output(
            Config {
                file_path: config.file_path,
                pattern: config.pattern,
                ignore_case: config.ignore_case,
                reversed: config.reversed,
                line_number: config.line_number,
                count,
            },
            content,
        ).len(),
{
    let other = Config {
        file_path: config.file_path,
        pattern: config.pattern,
        ignore_case: config.ignore_case,
        reversed: config.reversed,
        line_number: config.line_number,
        count,
    };
    let lines = lines_of(content);
    lemma_matching_ignores_output_flags(config, other, lines, lines.len() as int);
}

/// The empty pattern selects every line, or, with `reversed`, none.
proof fn lemma_empty_pattern(config: Config, lines: Seq<Seq<char>>, n: int)
    requires
        config.pattern@.len() == 0,
        0 <= n <= lines.len(),
    ensures
        !config.reversed ==> matches_within(config, lines, n) == Seq::new(
            n as nat,
            |k: int| (k, lines[k]),
        ),
        config.reversed ==> matches_within(config, lines, n).len() == 0,
    decreases n,
{
    if n > 0 {
        lemma_empty_pattern(config, lines, n - 1);
        if !config.reversed {
            assert(matches_within(config, lines, n) =~= Seq::new(n as nat, |k: int| (k, lines[k])));
        }
    }
}

/// The empty pattern selects every line of a text, or, with `reversed`,
/// none.
pub proof fn lemma_empty_pattern_selects_all_or_none(config: Config, content: Seq<char>)
    requires
        config.pattern@.len() == 0,
    ensures
        !config.reversed ==> matching(config, content) == Seq::new(
            lines_of(content).len(),
            |k: int| (k, lines_of(content)[k]),
        ),
        config.reversed ==> matching(config, content).len() == 0,
{
    let lines = lines_of(content);
    lemma_empty_pattern(config, lines, lines.len() as int);
}

/// Whether `config` selects `line`, given the case-folded forms of the
/// pattern and of the line (read only when `ignore_case` is set).
pub fn select_folded(
    config: &Config,
    line: &Vec<char>,
    folded_pattern: &Vec<char>,
    folded_line: &Vec<char>,
) -> (r: bool)
    ensures
        r == selected_with(*config, line@, folded_pattern@, folded_line@),
{
    let held = if config.pattern.as_str().is_empty() {
        true
    } else if config.ignore_case {
        crate::text::occurs(folded_line, folded_pattern)
    } else {
        crate::text::occurs(line, &chars_of(config.pattern.as_str()))
    };
    if config.reversed {
        !held
    } else {
        held
    }
}

/// The lines of `content` that `config` selects, each with its 0-based
/// index, in the order of the text.
pub fn matcher(config: &Config, content: &str) -> (r: Vec<(usize, String)>)
    ensures
        r.len() == matching(*config, content@).len(),
        forall|k: int|
            0 <= k < r.len() ==> {
                &&& (#[trigger] r[k]).0 == matching(*config, content@)[k].0
                &&& r[k].1@ == matching(*config, content@)[k].1
                &&& r[k].0 < lines_of(content@).len()
            },
        lines_of(content@).len() <= usize::MAX,
{
    let ghost ls = lines_of(content@);
    let text = chars_of(content);
    let lines = split_lines(&text);
    let folded_pattern = if config.ignore_case {
        chars_of(lowercase(config.pattern.as_str()).as_str())
    } else {
        Vec::new()
    };
    let mut r: Vec<(usize, String)> = Vec::new();
    let n = lines.len();
    let mut i: usize = 0;
    while i < n
        invariant
            n == lines.len(),
            n == ls.len(),
            i <= n,
            forall|k: int| 0 <= k < n ==> #[trigger] lines[k]@ == ls[k],
            ls == lines_of(content@),
            config.ignore_case ==> folded_pattern@ == lower_of(config.pattern@),
            r.len() == matches_within(*config, ls, i as int).len(),
            forall|k: int|
                0 <= k < r.len() ==> {
                    &&& (#[trigger] r[k]).0 == matches_within(*config, ls, i as int)[k].0
                    &&& r[k].1@ == matches_within(*config, ls, i as int)[k].1
                },
        decreases n - i,
    {
        let line = string_of(lines[i].as_slice());
        let folded_line = if config.ignore_case {
            chars_of(lowercase(line.as_str()).as_str())
        } else {
            Vec::new()
        };
        if select_folded(config, &lines[i], &folded_pattern, &folded_line) {
            r.push((i, line));
        }
        i = i + 1;
    }
    proof {
        lemma_matches_within(*config, ls, n as int);
    }
    r
}

/// How many lines of `content` `config` selects.
pub fn count_mode(config: Config, content: &str) -> (r: usize)
    ensures
        r == matching(config, content@).len(),
{
    matcher(&config, content).len()
}

/// The selected lines of `content`, in order; each prefixed with its
/// 1-based number and `" : "` when `line_number` is set.
pub fn search_mode(config: Config, content: &str) -> (r: Vec<String>)
    ensures
        r.len() == search_output(config, content@).len(),
        forall|k: int| 0 <= k < r.len() ==> #[trigger] r[k]@ == search_output(config, content@)[k],
{
    let m = matcher(&config, content);
    let mut r: Vec<String> = Vec::new();
    let n = m.len();
    let mut i: usize = 0;
    while i < n
        invariant
            n == m.len(),
            i <= n,
            n == matching(config, content@).len(),
            forall|k: int|
                0 <= k < n ==> {
                    &&& (#[trigger] m[k]).0 == matching(config, content@)[k].0
                    &&& m[k].1@ == matching(config, content@)[k].1
                    &&& m[k].0 < lines_of(content@).len()
                },
            lines_of(content@).len() <= usize::MAX,
            r.len() == i,
            forall|k: int| 0 <= k < i ==> #[trigger] r[k]@ == search_output(config, content@)[k],
        decreases n - i,
    {
        let index = m[i].0;
        let line = &m[i].1;
        if config.line_number {
            let mut head: Vec<char> = Vec::new();
            push_decimal(&mut head, index + 1);
            head.push(' ');
            head.push(':');
            head.push(' ');
            let mut s = string_of(head.as_slice());
            s.append(line.as_str());
            r.push(s);
        } else {
            r.push(line.clone());
        }
        i = i + 1;
    }
    r
}

/// The sentence that reports `total` selected lines.
pub fn count_message(total: usize) -> (r: String)
    ensures
        r@ == count_line(total as nat),
{
    let mut digits: Vec<char> = Vec::new();
    push_decimal(&mut digits, total);
    let mut s = String::from_str("There is(are) ");
    s.append(string_of(digits.as_slice()).as_str());
    s.append(" line(s) in the file that match the pattern.");
    s
}

/// What a run reports on `content`: the count sentence alone when `count`
/// is set, else the lines of search mode.
pub fn output_lines(config: Config, content: &str) -> (r: Vec<String>)
    ensures
        config.count ==> r.len() == 1 && r[0]@ == count_line(matching(config, content@).len()),
        !config.count ==> r.len() == search_output(config, content@).len() && forall|k: int|
            0 <= k < r.len() ==> #[trigger] r[k]@ == search_output(config, content@)[k],
{
    if config.count {
        let total = count_mode(config, content);
        vec![count_message(total)]
    } else {
        search_mode(config, content)
    }
}

} // verus!
