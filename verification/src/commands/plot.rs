//! The text of plot notes and the arguments of the plotting tool.
use vstd::prelude::*;
use vstd::string::StringSliceAdditionalSpecFns;
use crate::args::plot::PlotCommandArgs;
use crate::string_map::str_eq;
use crate::text::{is_uppercase, is_uppercase_char, owned, push_char, push_str};

verus! {

/// The number of uppercase characters of a text.
pub open spec fn capitals(s: Seq<char>) -> nat
    decreases s.len(),
{
    if s.len() == 0 {
        0
    } else {
        capitals(s.drop_last()) + if is_uppercase_char(s.last()) { 1nat } else { 0nat }
    }
}

/// The number of uppercase characters of a text. Of its ASCII letters,
/// `A` to `Z` are uppercase and `a` to `z` are not.
pub fn count_capital_letters(string: &str) -> (r: usize)
    ensures
        r == capitals(string@),
        forall|i: int| 0 <= i < string@.len() && 'A' <= #[trigger] string@[i] <= 'Z' ==> is_uppercase_char(string@[i]),
        forall|i: int| 0 <= i < string@.len() && 'a' <= #[trigger] string@[i] <= 'z' ==> !is_uppercase_char(string@[i]),
{
    let n = string.unicode_len();
    let mut count: usize = 0;
    let mut i: usize = 0;
    while i < n
        invariant
            i <= n,
            n == string@.len(),
            count == capitals(string@.subrange(0, i as int)),
            count <= i,
            forall|j: int| 0 <= j < i && 'A' <= #[trigger] string@[j] <= 'Z' ==> is_uppercase_char(string@[j]),
            forall|j: int| 0 <= j < i && 'a' <= #[trigger] string@[j] <= 'z' ==> !is_uppercase_char(string@[j]),
        decreases n - i,
    {
        assert(string@.subrange(0, i + 1).drop_last() == string@.subrange(0, i as int));
        if is_uppercase(string.get_char(i)) {
            count = count + 1;
        }
        i = i + 1;
    }
    assert(string@.subrange(0, n as int) == string@);
    count
}

/// `n` spaces.
pub open spec fn spaces(n: nat) -> Seq<char> {
    Seq::new(n, |i: int| ' ')
}

/// The indentation of the note line at `index`: the lines are right-aligned
/// on a width of 196 less the adjustment and the line's index, counting a
/// note by its bytes less half its capitals; the first line is one space
/// shorter.
pub open spec fn note_indent(index: int, note: &str, adjustment: u32) -> int {
    196 - adjustment - index - note.spec_bytes().len() + capitals(note@) / 2 - if index == 0 { 1int } else { 0int }
}

/// The indentation of each line is not negative, and no step of computing
/// it goes below zero.
pub open spec fn notes_fit(notes: Seq<&str>, adjustment: u32) -> bool {
    forall|i: int| 0 <= i < notes.len() ==> {
        &&& adjustment + i + (#[trigger] notes[i]).spec_bytes().len() <= 196
        &&& note_indent(i, notes[i], adjustment) >= 0
    }
}

/// The note lines, each indented and ended by a new line.
pub open spec fn adjusted_note(notes: Seq<&str>, adjustment: u32) -> Seq<char>
    decreases notes.len(),
{
    if notes.len() == 0 {
        Seq::empty()
    } else {
        let i = notes.len() - 1;
        adjusted_note(notes.drop_last(), adjustment) + spaces(note_indent(i, notes[i], adjustment) as nat)
            + notes[i]@ + seq!['\n']
    }
}

/// The figure note made of the words, one per line, right-aligned.
pub fn adjust_note(notes: &Vec<&str>, adjustment: u32) -> (r: String)
    requires
        notes_fit(notes@, adjustment),
    ensures
        r@ == adjusted_note(notes@, adjustment),
{
    let mut out = String::new();
    let mut index: usize = 0;
    while index < notes.len()
        invariant
            index <= notes@.len(),
            notes_fit(notes@, adjustment),
            out@ == adjusted_note(notes@.subrange(0, index as int), adjustment),
        decreases notes@.len() - index,
    {
        let note: &str = notes[index];
        assert(adjustment + index + notes@[index as int].spec_bytes().len() <= 196);
        let caps = count_capital_letters(note);
        let mut spaces_count: usize = 196 - adjustment as usize - index - note.len() + caps / 2;
        if index == 0 {
            spaces_count = spaces_count - 1;
        }
        assert(spaces_count == note_indent(index as int, note, adjustment));
        let ghost before = out@;
        let mut k: usize = 0;
        while k < spaces_count
            invariant
                k <= spaces_count,
                out@ == before + spaces(k as nat),
            decreases spaces_count - k,
        {
            push_char(&mut out, ' ');
            k = k + 1;
            assert(out@ =~= before + spaces(k as nat));
        }
        push_str(&mut out, note);
        push_char(&mut out, '\n');
        proof {
            let p = notes@.subrange(0, index + 1);
            assert(p.drop_last() == notes@.subrange(0, index as int));
            assert(p[index as int] == note);
        }
        index = index + 1;
    }
    assert(notes@.subrange(0, index as int) == notes@);
    out
}

/// Index of the first comma of a text.
pub open spec fn first_comma(s: Seq<char>) -> Option<int>
    decreases s.len(),
{
    if s.len() == 0 {
        None
    } else if s[0] == ',' {
        Some(0)
    } else {
        match first_comma(s.drop_first()) {
            Some(j) => Some(j + 1),
            None => None,
        }
    }
}

/// `first_comma` finds a comma, and none before it, or finds none where
/// the text has none.
pub proof fn lemma_first_comma(s: Seq<char>)
    ensures
        first_comma(s) matches Some(j) ==> 0 <= j < s.len() && s[j] == ',' && forall|k: int| 0 <= k < j ==> s[k] != ',',
        first_comma(s) is None ==> forall|k: int| 0 <= k < s.len() ==> s[k] != ',',
    decreases s.len(),
{
    if s.len() > 0 && s[0] != ',' {
        lemma_first_comma(s.drop_first());
        assert forall|k: int| 1 <= k < s.len() implies s[k] == s.drop_first()[k - 1] by {}
    }
}

proof fn lemma_first_comma_at(s: Seq<char>, j: int)
    requires
        0 <= j < s.len(),
        s[j] == ',',
        forall|k: int| 0 <= k < j ==> s[k] != ',',
    ensures
        first_comma(s) == Some(j),
{
    lemma_first_comma(s);
    match first_comma(s) {
        Some(i) => {
            assert(i == j);
        },
        None => {},
    }
}

/// The parts of a text between commas, as `str::split(',')` gives them.
pub open spec fn split_commas(s: Seq<char>) -> Seq<Seq<char>>
    decreases s.len(),
{
    match first_comma(s) {
        None => seq![s],
        Some(i) => {
            proof {
                lemma_first_comma(s);
            }
            seq![s.subrange(0, i)] + split_commas(s.subrange(i + 1, s.len() as int))
        },
    }
}

/// The keywords of an experiment: the parts of its name between commas.
pub fn experiment_keywords(name: &str) -> (r: Vec<String>)
    ensures
        r@.map_values(|k: String| k@) == split_commas(name@),
{
    let n = name.unicode_len();
    let ghost s = name@;
    let mut out: Vec<String> = Vec::new();
    let mut start: usize = 0;
    let mut i: usize = 0;
    assert(s.subrange(0, n as int) == s);
    while i < n
        invariant
            start <= i <= n,
            n == s.len(),
            s == name@,
            out@.map_values(|k: String| k@) + split_commas(s.subrange(start as int, n as int)) == split_commas(s),
            forall|k: int| start <= k < i ==> s[k] != ',',
        decreases n - i,
    {
        if name.get_char(i) == ',' {
            let part = owned(name.substring_char(start, i));
            proof {
                let t = s.subrange(start as int, n as int);
                assert forall|k: int| 0 <= k < i - start implies t[k] != ',' by {
                    assert(t[k] == s[start + k]);
                }
                lemma_first_comma_at(t, i - start);
                assert(t.subrange(0, i - start) == s.subrange(start as int, i as int));
                assert(t.subrange(i - start + 1, t.len() as int) == s.subrange(i + 1, n as int));
            }
            let ghost before = out@;
            out.push(part);
            assert(out@.map_values(|k: String| k@) == before.map_values(|k: String| k@).push(part@));
            assert(out@.map_values(|k: String| k@) + split_commas(s.subrange(i + 1, n as int))
                =~= before.map_values(|k: String| k@) + split_commas(s.subrange(start as int, n as int)));
            start = i + 1;
        }
        i = i + 1;
    }
    let last = owned(name.substring_char(start, n));
    proof {
        let t = s.subrange(start as int, n as int);
        lemma_first_comma(t);
        if let Some(j) = first_comma(t) {
            assert(t[j] == s[start + j]);
        }
        assert(t.subrange(0, t.len() as int) == t);
    }
    let ghost before = out@;
    out.push(last);
    assert(out@.map_values(|k: String| k@) =~= before.map_values(|k: String| k@) + seq![last@]);
    out
}

/// Whether a path names a compressed result of the network tester.
pub open spec fn is_flent_result_path(p: Seq<char>) -> bool {
    p.len() >= 9 && p.subrange(p.len() - 9, p.len() as int) == ".flent.gz"@
}

/// Whether a path names a compressed result of the network tester.
pub fn is_flent_result(path: &str) -> (r: bool)
    ensures
        r == is_flent_result_path(path@),
{
    let n = path.unicode_len();
    if n < 9 {
        return false;
    }
    let suffix = path.substring_char(n - 9, n);
    str_eq(suffix, ".flent.gz")
}

/// The plots drawn for each comparison: the plot type of the tester, the
/// file name, and the note adjustment.
pub fn plots() -> (r: Vec<(String, String, u32)>)
    ensures
        r@.len() == 2,
        r@[0].0@ == "box_totals"@ && r@[0].1@ == "Box plot of totals"@ && r@[0].2 == 0,
        r@[1].0@ == "icmp_cdf"@ && r@[1].1@ == "ICMP CDF"@ && r@[1].2 == 15,
{
    vec![
        (owned("box_totals"), owned("Box plot of totals"), 0),
        (owned("icmp_cdf"), owned("ICMP CDF"), 15),
    ]
}

/// The image formats each plot is drawn in.
pub fn extensions() -> (r: Vec<String>)
    ensures
        r@.len() == 2,
        r@[0]@ == "png"@,
        r@[1]@ == "svg"@,
{
    vec![owned("png"), owned("svg")]
}

/// The arguments that hand the result files to the tester: `-i` before each.
pub open spec fn input_file_args(paths: Seq<Seq<char>>) -> Seq<Seq<char>>
    decreases paths.len(),
{
    if paths.len() == 0 {
        Seq::empty()
    } else {
        input_file_args(paths.drop_last()) + seq!["-i"@, paths.last()]
    }
}

/// The arguments that drop the common words from the legends.
pub open spec fn legend_filter_args(words: Seq<Seq<char>>) -> Seq<Seq<char>>
    decreases words.len(),
{
    if words.len() == 0 {
        Seq::empty()
    } else {
        legend_filter_args(words.drop_last()) + seq!["--filter-regexp"@, words.last() + "\\s?"@]
    }
}

/// The arguments of the plot options: a log scale, no title.
pub open spec fn option_args(args: PlotCommandArgs) -> Seq<Seq<char>> {
    (if args.log_scale { seq!["--log-scale-y"@, "log10"@] } else { Seq::empty() })
        + (if args.no_title { seq!["--no-title"@] } else { Seq::empty() })
}

/// The fixed arguments of every plot: output, type, and the filters that
/// clean the legends.
pub open spec fn base_args(plot_path: Seq<char>, plot_type: Seq<char>) -> Seq<Seq<char>> {
    seq![
        "-o"@, plot_path,
        "-p"@, plot_type,
        "--skip-missing-series"@,
        "--filter-regexp"@, ","@,
        "--filter-regexp"@, "_"@,
        "--filter-regexp"@, "Ping \\(ms\\) --"@,
        "--filter-regexp"@, "ICMP - "@,
        "--filter-regexp"@, "(?:[0-9]{1,3}\\.){3}[0-9]{1,3}"@,
        "--no-annotation"@,
        "--no-markers"@,
        "--no-hover-highlight"@,
        "--fallback-layout"@
    ]
}

fn push_owned(v: &mut Vec<String>, s: &str)
    ensures
        final(v)@.map_values(|k: String| k@) == old(v)@.map_values(|k: String| k@).push(s@),
{
    let ghost before = v@;
    v.push(owned(s));
    assert(v@.map_values(|k: String| k@) =~= before.map_values(|k: String| k@).push(s@));
}

/// The arguments of the tester for one plot.
pub fn flent_arguments(
    plot_path: &str,
    plot_type: &str,
    input_files: &Vec<String>,
    common_words: &Vec<String>,
    options: &PlotCommandArgs,
    figure_note: &str,
) -> (r: Vec<String>)
    ensures
        r@.map_values(|k: String| k@) == base_args(plot_path@, plot_type@)
            + input_file_args(input_files@.map_values(|k: String| k@))
            + (if options.remove_common_legend {
                legend_filter_args(common_words@.map_values(|k: String| k@))
            } else {
                Seq::empty()
            })
            + option_args(*options)
            + seq!["--figure-note"@, figure_note@],
{
    let mut r: Vec<String> = Vec::new();
    push_owned(&mut r, "-o");
    push_owned(&mut r, plot_path);
    push_owned(&mut r, "-p");
    push_owned(&mut r, plot_type);
    push_owned(&mut r, "--skip-missing-series");
    push_owned(&mut r, "--filter-regexp");
    push_owned(&mut r, ",");
    push_owned(&mut r, "--filter-regexp");
    push_owned(&mut r, "_");
    push_owned(&mut r, "--filter-regexp");
    push_owned(&mut r, "Ping \\(ms\\) --");
    push_owned(&mut r, "--filter-regexp");
    push_owned(&mut r, "ICMP - ");
    push_owned(&mut r, "--filter-regexp");
    push_owned(&mut r, "(?:[0-9]{1,3}\\.){3}[0-9]{1,3}");
    push_owned(&mut r, "--no-annotation");
    push_owned(&mut r, "--no-markers");
    push_owned(&mut r, "--no-hover-highlight");
    push_owned(&mut r, "--fallback-layout");
    assert(r@.map_values(|k: String| k@) =~= base_args(plot_path@, plot_type@));
    let ghost base = r@.map_values(|k: String| k@);
    let mut i: usize = 0;
    while i < input_files.len()
        invariant
            i <= input_files@.len(),
            r@.map_values(|k: String| k@) == base + input_file_args(input_files@.subrange(0, i as int).map_values(|k: String| k@)),
        decreases input_files@.len() - i,
    {
        assert(input_files@.subrange(0, i + 1).map_values(|k: String| k@).drop_last()
            =~= input_files@.subrange(0, i as int).map_values(|k: String| k@));
        push_owned(&mut r, "-i");
        push_owned(&mut r, input_files[i].as_str());
        assert(r@.map_values(|k: String| k@) =~= base + input_file_args(input_files@.subrange(0, i + 1).map_values(|k: String| k@)));
        i = i + 1;
    }
    assert(input_files@.subrange(0, i as int) == input_files@);
    let ghost with_inputs = r@.map_values(|k: String| k@);
    if options.remove_common_legend {
        let mut j: usize = 0;
        while j < common_words.len()
            invariant
                j <= common_words@.len(),
                r@.map_values(|k: String| k@) == with_inputs + legend_filter_args(common_words@.subrange(0, j as int).map_values(|k: String| k@)),
            decreases common_words@.len() - j,
        {
            assert(common_words@.subrange(0, j + 1).map_values(|k: String| k@).drop_last()
                =~= common_words@.subrange(0, j as int).map_values(|k: String| k@));
            push_owned(&mut r, "--filter-regexp");
            let mut filter = common_words[j].clone();
            push_str(&mut filter, "\\s?");
            let ghost before = r@;
            r.push(filter);
            assert(r@.map_values(|k: String| k@) =~= before.map_values(|k: String| k@).push(filter@));
            assert(r@.map_values(|k: String| k@) =~= with_inputs + legend_filter_args(common_words@.subrange(0, j + 1).map_values(|k: String| k@)));
            j = j + 1;
        }
        assert(common_words@.subrange(0, j as int) == common_words@);
    }
    let ghost with_legends = r@.map_values(|k: String| k@);
    if options.log_scale {
        push_owned(&mut r, "--log-scale-y");
        push_owned(&mut r, "log10");
    }
    if options.no_title {
        push_owned(&mut r, "--no-title");
    }
    assert(r@.map_values(|k: String| k@) =~= with_legends + option_args(*options));
    push_owned(&mut r, "--figure-note");
    push_owned(&mut r, figure_note);
    assert(r@.map_values(|k: String| k@) =~= with_legends + option_args(*options) + seq!["--figure-note"@, figure_note@]);
    r
}

/// The argument of the resource plotter for the log of one router: the
/// system's name before the path when several experiments are compared.
pub fn resource_plot_entry(comparison_mode: bool, os_name: &String, log_path: &str) -> (r: String)
    ensures
        r@ == if comparison_mode { os_name@ + seq![':'] + log_path@ } else { log_path@ },
{
    if comparison_mode {
        let mut s = os_name.clone();
        push_char(&mut s, ':');
        push_str(&mut s, log_path);
        s
    } else {
        owned(log_path)
    }
}

/// The words of a sequence without repetitions, each where it first occurs.
pub open spec fn dedup(s: Seq<Seq<char>>) -> Seq<Seq<char>>
    decreases s.len(),
{
    if s.len() == 0 {
        Seq::empty()
    } else if dedup(s.drop_last()).contains(s.last()) {
        dedup(s.drop_last())
    } else {
        dedup(s.drop_last()).push(s.last())
    }
}

/// Every legend has the word.
pub open spec fn in_all_legends(w: Seq<char>, legends: Seq<Seq<Seq<char>>>) -> bool {
    forall|i: int| 0 <= i < legends.len() ==> (#[trigger] legends[i]).contains(w)
}

/// The words of `s` that every legend has, in order.
pub open spec fn words_where(s: Seq<Seq<char>>, legends: Seq<Seq<Seq<char>>>) -> Seq<Seq<char>>
    decreases s.len(),
{
    if s.len() == 0 {
        Seq::empty()
    } else if in_all_legends(s.last(), legends) {
        words_where(s.drop_last(), legends).push(s.last())
    } else {
        words_where(s.drop_last(), legends)
    }
}

/// The words of `s` that `common` lacks, in order.
pub open spec fn words_outside(s: Seq<Seq<char>>, common: Seq<Seq<char>>) -> Seq<Seq<char>>
    decreases s.len(),
{
    if s.len() == 0 {
        Seq::empty()
    } else if common.contains(s.last()) {
        words_outside(s.drop_last(), common)
    } else {
        words_outside(s.drop_last(), common).push(s.last())
    }
}

/// The words that every legend has: those of the first legend, once each,
/// in its order.
pub open spec fn common_words(legends: Seq<Seq<Seq<char>>>) -> Seq<Seq<char>> {
    if legends.len() == 0 {
        Seq::empty()
    } else {
        dedup(words_where(legends[0], legends))
    }
}

/// The other words of the legends, once each, in the order they first
/// occur.
pub open spec fn other_words(legends: Seq<Seq<Seq<char>>>) -> Seq<Seq<char>> {
    dedup(words_outside(legends.flatten(), common_words(legends)))
}

/// The views of a list of strings.
pub open spec fn views(v: Seq<String>) -> Seq<Seq<char>> {
    v.map_values(|k: String| k@)
}

/// The views of a list of lists of strings.
pub open spec fn legend_views(v: Seq<Vec<String>>) -> Seq<Seq<Seq<char>>> {
    v.map_values(|l: Vec<String>| views(l@))
}

fn contains_word(v: &Vec<String>, w: &String) -> (r: bool)
    ensures
        r == views(v@).contains(w@),
{
    let mut i: usize = 0;
    while i < v.len()
        invariant
            i <= v@.len(),
            forall|j: int| 0 <= j < i ==> v@[j]@ != w@,
        decreases v@.len() - i,
    {
        if str_eq(v[i].as_str(), w.as_str()) {
            assert(views(v@)[i as int] == w@);
            return true;
        }
        i = i + 1;
    }
    proof {
        if views(v@).contains(w@) {
            let j = choose|j: int| 0 <= j < views(v@).len() && views(v@)[j] == w@;
            assert(v@[j]@ == w@);
        }
    }
    false
}

fn push_once(out: &mut Vec<String>, w: &String)
    ensures
        views(final(out)@) == if views(old(out)@).contains(w@) { views(old(out)@) } else { views(old(out)@).push(w@) },
{
    if !contains_word(out, w) {
        let ghost before = out@;
        out.push(w.clone());
        assert(views(out@) =~= views(before).push(w@));
    }
}

fn in_all(legends: &Vec<Vec<String>>, w: &String) -> (r: bool)
    ensures
        r == in_all_legends(w@, legend_views(legends@)),
{
    let mut i: usize = 0;
    while i < legends.len()
        invariant
            i <= legends@.len(),
            forall|j: int| 0 <= j < i ==> (#[trigger] legend_views(legends@)[j]).contains(w@),
        decreases legends@.len() - i,
    {
        if !contains_word(&legends[i], w) {
            assert(legend_views(legends@)[i as int] == views(legends@[i as int]@));
            return false;
        }
        assert(legend_views(legends@)[i as int] == views(legends@[i as int]@));
        i = i + 1;
    }
    true
}

/// The words every legend has, and the other words of the legends: what a
/// comparison of experiments has in common, and what tells them apart.
pub fn extract_common_parts(legends: &Vec<Vec<String>>) -> (r: (Vec<String>, Vec<String>))
    ensures
        views(r.0@) == common_words(legend_views(legends@)),
        views(r.1@) == other_words(legend_views(legends@)),
{
    let ghost lv = legend_views(legends@);
    let mut common: Vec<String> = Vec::new();
    if legends.len() > 0 {
        let first = &legends[0];
        let ghost f = views(first@);
        assert(lv[0] == f);
        let mut i: usize = 0;
        while i < first.len()
            invariant
                i <= first@.len(),
                f == views(first@),
                lv == legend_views(legends@),
                views(common@) == dedup(words_where(f.subrange(0, i as int), lv)),
            decreases first@.len() - i,
        {
            assert(f.subrange(0, i + 1).drop_last() == f.subrange(0, i as int));
            assert(f.subrange(0, i + 1).last() == first@[i as int]@);
            let ghost w = words_where(f.subrange(0, i as int), lv);
            let ghost x = first@[i as int]@;
            if in_all(legends, &first[i]) {
                assert(w.push(x).drop_last() == w);
                push_once(&mut common, &first[i]);
            }
            i = i + 1;
        }
        assert(f.subrange(0, i as int) == f);
    }
    let ghost cw = views(common@);
    let mut others: Vec<String> = Vec::new();
    let ghost mut seen: Seq<Seq<char>> = Seq::empty();
    let mut j: usize = 0;
    while j < legends.len()
        invariant
            j <= legends@.len(),
            lv == legend_views(legends@),
            cw == views(common@),
            cw == common_words(lv),
            seen == lv.subrange(0, j as int).flatten(),
            views(others@) == dedup(words_outside(seen, cw)),
        decreases legends@.len() - j,
    {
        let legend = &legends[j];
        let ghost start = seen;
        let mut k: usize = 0;
        while k < legend.len()
            invariant
                k <= legend@.len(),
                cw == views(common@),
                seen == start + views(legend@).subrange(0, k as int),
                views(others@) == dedup(words_outside(seen, cw)),
            decreases legend@.len() - k,
        {
            let ghost prev = seen;
            proof {
                seen = seen.push(legend@[k as int]@);
                assert(seen =~= start + views(legend@).subrange(0, k + 1));
                assert(seen.drop_last() == prev);
            }
            let ghost wo = words_outside(prev, cw);
            let ghost x = legend@[k as int]@;
            if !contains_word(&common, &legend[k]) {
                assert(wo.push(x).drop_last() == wo);
                push_once(&mut others, &legend[k]);
            }
            k = k + 1;
        }
        proof {
            assert(views(legend@).subrange(0, k as int) == views(legend@));
            assert(lv.subrange(0, j + 1) == lv.subrange(0, j as int).push(lv[j as int]));
            assert(lv[j as int] == views(legend@));
            lv.subrange(0, j as int).lemma_flatten_push(lv[j as int]);
        }
        j = j + 1;
    }
    assert(lv.subrange(0, j as int) == lv);
    (common, others)
}

} // verus!
