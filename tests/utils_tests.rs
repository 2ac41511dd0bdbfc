use gladiator_war::utils::{
    fmt_option, fmt_vec, fmt_vec_with_tabs, get_last, non_repeating_filename, select_largest, string_ends_with,
    ProgramOptions,
};
use gladiator_war::global::GwGlobalData;

#[test]
fn test_string_end() {
    assert!(string_ends_with("beans.file", "file"));
    assert!(!string_ends_with("beans.file", "wrong"));
    assert!(!string_ends_with("beans", "looooong"));
}

#[test]
fn test_split_ext() {
    assert_eq!(get_last("file.e", '.'), ("file", "e"));
    assert_eq!(get_last("file.beans.e", '.'), ("file.beans", "e"));
}

#[test]
fn combined_test() {
    let (_, last) = get_last("beans.file", '.');
    assert!(string_ends_with("beans.file", last))
}

#[test]
fn get_last_without_delimiter() {
    assert_eq!(get_last("plain", '.'), ("", "plain"));
    assert_eq!(get_last("", '/'), ("", ""));
    assert_eq!(get_last("dir/sub/file.txt", '/'), ("dir/sub", "file.txt"));
    assert_eq!(get_last("trailing.", '.'), ("trailing", ""));
}

#[test]
fn string_ends_with_edges() {
    assert!(string_ends_with("abc", ""));
    assert!(string_ends_with("abc", "abc"));
    assert!(!string_ends_with("", "a"));
    assert!(!string_ends_with("abc", "xbc"));
}

#[test]
fn select_largest_picks_the_larger() {
    assert_eq!(select_largest(3, 7), 7);
    assert_eq!(select_largest(7, 3), 7);
    assert_eq!(select_largest(-4, -4), -4);
    assert_eq!(select_largest(i32::MIN, i32::MAX), i32::MAX);
}

#[test]
fn fmt_vec_joins_with_commas() {
    assert_eq!(fmt_vec(&vec![1, -2, 30]), "1, -2, 30");
    assert_eq!(fmt_vec(&vec![7]), "7");
    assert_eq!(fmt_vec(&vec![i32::MIN, 0]), "-2147483648, 0");
}

#[test]
fn fmt_option_writes_none() {
    assert_eq!(fmt_option(&Some(5)), "5");
    assert_eq!(fmt_option(&Some(-12)), "-12");
    assert_eq!(fmt_option(&None), "none");
}

#[test]
fn fmt_vec_with_tabs_indents_each_line() {
    let v = vec![String::from("a"), String::from("bc")];
    assert_eq!(fmt_vec_with_tabs(&v, 2), "\t\ta\n\t\tbc\n");
    assert_eq!(fmt_vec_with_tabs(&v, 0), "a\nbc\n");
    assert_eq!(fmt_vec_with_tabs(&Vec::new(), 3), "");
}

#[test]
fn global_data_default_template() {
    let g = GwGlobalData::default();
    assert!(g.saves.is_empty());
    assert_eq!(g.default_batlog_name, "%S_batlog_%R.txt");
}

#[test]
fn add_save_keeps_loadable_games_only() {
    let mut g = GwGlobalData::default();
    assert_eq!(g.add_save("a.json", Ok(())), Ok(()));
    assert_eq!(g.add_save("b.json", Err(String::from("file read error"))), Err(String::from("file read error")));
    assert_eq!(g.saves, vec![String::from("a.json")]);
}

#[test]
fn program_options_new_defaults() {
    let mut g = GwGlobalData::default();
    g.saves.push(String::from("x.json"));
    let po = ProgramOptions::new(g);
    assert_eq!(po.verbosity, 0);
    assert!(!po.logging);
    assert_eq!(po.global_data.saves, vec![String::from("x.json")]);
    let d = ProgramOptions::default();
    assert_eq!(d.verbosity, 0);
    assert!(d.global_data.saves.is_empty());
}

#[test]
fn free_file_names_are_numbered() {
    let names = vec![String::from("a.txt"), String::from("a_1.txt"), String::from("b.json")];
    assert_eq!(non_repeating_filename("dir/c.txt", &names), "dir/c.txt");
    assert_eq!(non_repeating_filename("dir/a.txt", &names), "dir/a_2.txt");
    assert_eq!(non_repeating_filename("b.json", &names), "./b_1.json");
    assert_eq!(non_repeating_filename("x/y/a.txt", &vec![String::from("a.txt")]), "x/y/a_1.txt");
    assert_eq!(non_repeating_filename("notes", &vec![String::from("notes")]), "./_1.notes");
}
