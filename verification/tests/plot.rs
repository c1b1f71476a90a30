use netlab::args::plot::PlotCommandArgs;
use netlab::commands::plot::{
    adjust_note, count_capital_letters, experiment_keywords, extensions, extract_common_parts, flent_arguments,
    is_flent_result, plots, resource_plot_entry,
};

#[test]
fn capitals_are_counted() {
    assert_eq!(count_capital_letters("Low Resources"), 2);
    assert_eq!(count_capital_letters("RTL8139"), 3);
    assert_eq!(count_capital_letters("static"), 0);
    assert_eq!(count_capital_letters("ÉtÉ"), 2);
    assert_eq!(count_capital_letters(""), 0);
}

#[test]
fn notes_are_right_aligned() {
    let note = adjust_note(&vec!["Low Resources", "RIP"], 0);
    let expected = format!("{}Low Resources\n{}RIP\n", " ".repeat(183), " ".repeat(193));
    assert_eq!(note, expected);
    let shifted = adjust_note(&vec!["vyos"], 15);
    assert_eq!(shifted, format!("{}vyos\n", " ".repeat(196 - 15 - 4 - 1)));
    assert_eq!(adjust_note(&vec![], 15), "");
}

#[test]
fn keywords_of_an_experiment() {
    assert_eq!(
        experiment_keywords("line,vyos,short,Low Resources,E1000,RIP"),
        vec!["line", "vyos", "short", "Low Resources", "E1000", "RIP"]
    );
    assert_eq!(experiment_keywords(""), vec![""]);
    assert_eq!(experiment_keywords("a,,b,"), vec!["a", "", "b", ""]);
    assert_eq!(experiment_keywords("a,,b,"), "a,,b,".split(',').collect::<Vec<_>>());
}

#[test]
fn result_files() {
    assert!(is_flent_result("/results/x/ping-2024.flent.gz"));
    assert!(is_flent_result(".flent.gz"));
    assert!(!is_flent_result("/results/x/ping.flent"));
    assert!(!is_flent_result("gz"));
}

#[test]
fn plot_kinds() {
    let p = plots();
    assert_eq!(p[0], ("box_totals".to_string(), "Box plot of totals".to_string(), 0));
    assert_eq!(p[1], ("icmp_cdf".to_string(), "ICMP CDF".to_string(), 15));
    assert_eq!(extensions(), vec!["png", "svg"]);
}

#[test]
fn arguments_of_the_tester() {
    let options = PlotCommandArgs { no_title: true, remove_common_legend: true, hide_note: false, log_scale: true };
    let args = flent_arguments(
        "out/ICMP CDF.png",
        "icmp_cdf",
        &vec!["r1.flent.gz".to_string(), "r2.flent.gz".to_string()],
        &vec!["vyos".to_string()],
        &options,
        "note",
    );
    let expected: Vec<&str> = vec![
        "-o", "out/ICMP CDF.png", "-p", "icmp_cdf", "--skip-missing-series",
        "--filter-regexp", ",", "--filter-regexp", "_", "--filter-regexp", "Ping \\(ms\\) --",
        "--filter-regexp", "ICMP - ", "--filter-regexp", "(?:[0-9]{1,3}\\.){3}[0-9]{1,3}",
        "--no-annotation", "--no-markers", "--no-hover-highlight", "--fallback-layout",
        "-i", "r1.flent.gz", "-i", "r2.flent.gz",
        "--filter-regexp", "vyos\\s?",
        "--log-scale-y", "log10", "--no-title",
        "--figure-note", "note",
    ];
    assert_eq!(args, expected);
    let plain = PlotCommandArgs { no_title: false, remove_common_legend: true, hide_note: false, log_scale: false };
    let args = flent_arguments("o.svg", "box_totals", &vec![], &vec![], &plain, "");
    assert_eq!(args.len(), 21);
    assert_eq!(args[19], "--figure-note");
}

#[test]
fn resource_plot_entries() {
    assert_eq!(resource_plot_entry(true, &"vyos".to_string(), "res/R1.log"), "vyos:res/R1.log");
    assert_eq!(resource_plot_entry(false, &"vyos".to_string(), "res/R1.log"), "res/R1.log");
}

#[test]
fn common_parts_of_legends() {
    let legends = vec![
        vec!["line".to_string(), "vyos".to_string(), "RIP".to_string()],
        vec!["line".to_string(), "frr".to_string(), "RIP".to_string()],
        vec!["line".to_string(), "bird".to_string(), "RIP".to_string(), "frr".to_string()],
    ];
    let (common, others) = extract_common_parts(&legends);
    assert_eq!(common, vec!["line", "RIP"]);
    assert_eq!(others, vec!["vyos", "frr", "bird"]);
    let (c, o) = extract_common_parts(&vec![]);
    assert!(c.is_empty() && o.is_empty());
}

#[test]
fn common_legend_words_kept_when_asked() {
    let keep = PlotCommandArgs { no_title: false, remove_common_legend: false, hide_note: false, log_scale: false };
    let args = flent_arguments("o.svg", "box_totals", &vec![], &vec!["vyos".to_string()], &keep, "");
    assert!(!args.iter().any(|a| a == "vyos\\s?"));
    assert_eq!(args.len(), 21);
    let drop = PlotCommandArgs { remove_common_legend: true, ..keep };
    let args = flent_arguments("o.svg", "box_totals", &vec![], &vec!["vyos".to_string()], &drop, "");
    assert!(args.iter().any(|a| a == "vyos\\s?"));
    assert_eq!(args.len(), 23);
}
