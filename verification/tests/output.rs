use remc::output::output_file_name;

fn name(s: &str, windows: bool) -> String {
    output_file_name(&s.to_string(), windows)
}

#[test]
fn default_name() {
    assert_eq!(name("", false), "out");
    assert_eq!(name("", true), "out.exe");
}

#[test]
fn requested_name_kept() {
    assert_eq!(name("prog", false), "prog");
    assert_eq!(name("prog.exe", false), "prog.exe");
}

#[test]
fn windows_appends_exe_once() {
    assert_eq!(name("prog", true), "prog.exe");
    assert_eq!(name("prog.exe", true), "prog.exe");
    assert_eq!(name("exe", true), "exe.exe");
    assert_eq!(name("a.ex", true), "a.ex.exe");
    assert_eq!(name(&name("x", true), true), "x.exe");
}
