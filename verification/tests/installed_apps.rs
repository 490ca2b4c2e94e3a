use liao_tools::commands::installed_apps::{
    clean_launch_command, clean_path, ends_with, extract_path_from_uninstall_string,
    parse_desktop_file, trim,
};

#[test]
fn trimming_agrees_with_the_standard_library() {
    for sample in ["", " ", "a", " a", "a ", "\t a b \r\n", "\u{3000}x\u{00A0}", "a\u{200B} ", " \n \t "] {
        assert_eq!(trim(sample), sample.trim(), "{:?}", sample);
    }
    assert!(ends_with("setup.exe", ".exe"));
    assert!(ends_with(".exe", ".exe"));
    assert!(ends_with("x", ""));
    assert!(!ends_with("exe", ".exe"));
    assert!(!ends_with("setup.exe ", ".exe"));
}

#[test]
fn icon_settings_are_cleaned_to_a_path() {
    assert_eq!(clean_path("C:\\App\\app.exe,0"), "C:\\App\\app.exe");
    assert_eq!(clean_path("  \"C:\\Program Files\\App\\app.exe\",1  "), "C:\\Program Files\\App\\app.exe");
    assert_eq!(clean_path("\"C:\\a,b\\app.exe\" -x"), "C:\\a");
    assert_eq!(clean_path("\"unclosed.exe,2"), "\"unclosed.exe");
    assert_eq!(clean_path("app"), "app");
    assert_eq!(clean_path(",0"), "");
    assert_eq!(clean_path(""), "");
    assert_eq!(clean_path("\"\""), "");
}

#[test]
fn uninstall_commands_give_up_their_program() {
    let path = extract_path_from_uninstall_string;
    assert_eq!(path("\"C:\\Program Files\\App\\app.exe\" /remove"), "C:\\Program Files\\App\\app.exe");
    assert_eq!(path("\"C:\\Program Files\\App\\Uninstall.exe\" /S"), "");
    assert_eq!(path("\"C:\\App\\UNINST000.exe\""), "");
    assert_eq!(path("  C:\\App\\app.EXE /x  "), "C:\\App\\app.EXE");
    assert_eq!(path("C:\\App\\uninst.exe /x"), "");
    assert_eq!(path("MsiExec.exe /X{1234}"), "MsiExec.exe");
    assert_eq!(path("msiexec /X{1234}"), "");
    assert_eq!(path("\"C:\\App\\app.exe /x"), "\"C:\\App\\app.exe");
    assert_eq!(path("\"C:\\App\\app.exe"), "\"C:\\App\\app.exe");
    assert_eq!(path(""), "");
    assert_eq!(path("   "), "");
}

#[test]
fn field_codes_are_taken_out_of_launch_commands() {
    assert_eq!(clean_launch_command("gedit %U"), "gedit");
    assert_eq!(clean_launch_command("  app --open %f --url=%u %F"), "app --open  --url=");
    assert_eq!(clean_launch_command("app %%ff"), "app %f");
    assert_eq!(clean_launch_command("app %fu"), "app u");
    assert_eq!(clean_launch_command("app %%uf"), "app %f");
    assert_eq!(clean_launch_command("app %i %m %"), "app %i %m %");
    assert_eq!(clean_launch_command("%d%D%n%N%k%v%c"), "");
    let expected = "a %f b%ucd%%c %"
        .replace("%f", "")
        .replace("%u", "")
        .replace("%F", "")
        .replace("%U", "")
        .replace("%d", "")
        .replace("%D", "")
        .replace("%n", "")
        .replace("%N", "")
        .replace("%k", "")
        .replace("%v", "")
        .replace("%c", "");
    assert_eq!(clean_launch_command("a %f b%ucd%%c %"), expected.trim());
}

#[test]
fn a_desktop_entry_names_a_program() {
    let content = "# a comment\n[Desktop Entry]\r\nType=Application\nName = Text Editor \nName[de]=Texteditor\nExec=gedit %U\nComment=Edit text files\n\n[Desktop Action new]\nName=New Window\nExec=gedit --new-window\n";
    let app = parse_desktop_file(content).unwrap();
    assert_eq!(app.name, "Text Editor");
    assert_eq!(app.display_name, "Text Editor");
    assert_eq!(app.path, "gedit");
    assert_eq!(app.publisher.as_deref(), Some("Edit text files"));
    assert_eq!(app.icon_base64, None);
    assert_eq!(app.version, None);
}

#[test]
fn a_desktop_entry_needs_a_name_and_a_command() {
    assert!(parse_desktop_file("").is_none());
    assert!(parse_desktop_file("[Desktop Entry]\nName=x\n").is_none());
    assert!(parse_desktop_file("[Desktop Entry]\nExec=x\n").is_none());
    assert!(parse_desktop_file("Name=x\nExec=y\n").is_none());
    assert!(parse_desktop_file("[Other]\nName=x\nExec=y\n").is_none());
    let app = parse_desktop_file("[Desktop Entry]\nName=a=b\nExec=\nName=last").unwrap();
    assert_eq!(app.name, "last");
    assert_eq!(app.path, "");
    assert_eq!(app.publisher, None);
    let app = parse_desktop_file("[Desktop Entry]\n#Name=no\nName=yes\n [x] \n[Desktop Entry]\nExec= run %f ").unwrap();
    assert_eq!((app.name.as_str(), app.path.as_str()), ("yes", "run"));
}
