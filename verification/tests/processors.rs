use neo_installer::archive::{read_archive_entry, EntryRead};
use neo_installer::error::InstallError;
use neo_installer::processors::{
    argument, arguments, classpath, command, entry_point, entry_point_from, locate, main_class,
    render, run_processor, store, Inspection, Processor, RunContext,
};
use neo_installer::side::Side;
use neo_installer::table::TokenMap;
use std::io::{Cursor, Write};
use zip::write::SimpleFileOptions;
use zip::ZipWriter;

const LIB: &str = "/work/libraries";
const WORK: &str = "/work";

fn archive(entries: &[(&str, &str)]) -> Vec<u8> {
    let mut writer = ZipWriter::new(Cursor::new(Vec::new()));
    for (name, content) in entries {
        writer.start_file(*name, SimpleFileOptions::default()).unwrap();
        writer.write_all(content.as_bytes()).unwrap();
    }
    writer.finish().unwrap().into_inner()
}

fn table(entries: &[(&str, &str)]) -> TokenMap<String> {
    let mut map = TokenMap::new();
    for (name, value) in entries {
        map.insert(name.to_string(), value.to_string());
    }
    map
}

fn strings(items: &[&str]) -> Vec<String> {
    items.iter().map(|s| s.to_string()).collect()
}

fn context() -> RunContext {
    RunContext {
        side: Side::Client,
        library_dir: LIB.to_string(),
        work_dir: WORK.to_string(),
        java: "java".to_string(),
        separator: ":".to_string(),
    }
}

#[test]
fn render_fills_in_every_placeholder() {
    let vars = table(&[("SIDE", "client"), ("ROOT", ".")]);
    assert_eq!(render("{ROOT}/out-{SIDE}.jar", &vars), Ok("./out-client.jar".to_string()));
    assert_eq!(render("{SIDE}{SIDE}", &vars), Ok("clientclient".to_string()));
    assert_eq!(render("--plain", &vars), Ok("--plain".to_string()));
    assert_eq!(render("", &vars), Ok(String::new()));
}

#[test]
fn render_does_not_read_a_value_again() {
    let vars = table(&[("A", "{B}"), ("B", "{A}"), ("C", "x")]);
    assert_eq!(render("{A}", &vars), Ok("{B}".to_string()));
    assert_eq!(render("{B}{A}", &vars), Ok("{A}{B}".to_string()));
    assert_eq!(render("{A}{C}", &vars), Ok("{B}x".to_string()));
}

#[test]
fn render_reports_the_first_unknown_placeholder() {
    let vars = table(&[("A", "x")]);
    assert_eq!(
        render("{A} {NOPE} {ALSO}", &vars),
        Err(InstallError::MissingToken("NOPE".to_string()))
    );
    assert_eq!(render("{}", &vars), Err(InstallError::MissingToken(String::new())));
    assert_eq!(render("{{A}}", &vars), Err(InstallError::MissingToken("{A".to_string())));
}

#[test]
fn a_brace_that_is_not_closed_stands_for_itself() {
    let vars = table(&[("A", "x")]);
    assert_eq!(render("{A", &vars), Ok("{A".to_string()));
    assert_eq!(render("a{", &vars), Ok("a{".to_string()));
    assert_eq!(render("}{A}", &vars), Ok("}x".to_string()));
    assert_eq!(render("{A}}", &vars), Ok("x}".to_string()));
}

#[test]
fn store_gives_the_file_in_the_library_directory() {
    assert_eq!(store("a.b:c:1.0", LIB), Ok("/work/libraries/a/b/c/1.0/c-1.0.jar".to_string()));
    assert_eq!(store("a.b", LIB), Err(InstallError::InvalidCoordinate("a.b".to_string())));
}

#[test]
fn locate_gives_the_file_as_seen_from_the_working_directory() {
    assert_eq!(locate("a.b:c:1.0", LIB, WORK), Ok("libraries/a/b/c/1.0/c-1.0.jar".to_string()));
    assert_eq!(locate("a.b:c:1.0", LIB, LIB), Ok("a/b/c/1.0/c-1.0.jar".to_string()));
    assert_eq!(
        locate("a.b:c:1.0", LIB, "/elsewhere"),
        Err(InstallError::OutsideWorkDir("/work/libraries/a/b/c/1.0/c-1.0.jar".to_string()))
    );
    assert_eq!(locate("nope", LIB, WORK), Err(InstallError::InvalidCoordinate("nope".to_string())));
}

#[test]
fn a_bracketed_argument_is_a_file() {
    let vars = table(&[("MAPPINGS", "[a.b:c:1.0:mappings@txt]"), ("V", "1.0")]);
    assert_eq!(
        argument("[a.b:c:1.0]", &vars, LIB, WORK),
        Ok("libraries/a/b/c/1.0/c-1.0.jar".to_string())
    );
    assert_eq!(
        argument("[a.b:c:{V}:slim]", &vars, LIB, WORK),
        Ok("libraries/a/b/c/1.0/c-1.0-slim.jar".to_string())
    );
    assert_eq!(
        argument("{MAPPINGS}", &vars, LIB, WORK),
        Ok("libraries/a/b/c/1.0/c-1.0-mappings.txt".to_string())
    );
    assert_eq!(argument("--out={V}", &vars, LIB, WORK), Ok("--out=1.0".to_string()));
    assert_eq!(argument("[a", &vars, LIB, WORK), Ok("[a".to_string()));
    assert_eq!(argument("[", &vars, LIB, WORK), Ok("[".to_string()));
    assert_eq!(
        argument("[]", &vars, LIB, WORK),
        Err(InstallError::InvalidCoordinate(String::new()))
    );
    assert_eq!(
        argument("[{NOPE}]", &vars, LIB, WORK),
        Err(InstallError::MissingToken("NOPE".to_string()))
    );
}

#[test]
fn arguments_keep_their_order() {
    let vars = table(&[("SIDE", "client"), ("OUT", "/work/out.jar")]);
    assert_eq!(
        arguments(&strings(&["--task", "{SIDE}", "--output", "{OUT}", "[a:b:1]"]), &vars, LIB, WORK),
        Ok(strings(&["--task", "client", "--output", "/work/out.jar", "libraries/a/b/1/b-1.jar"]))
    );
    assert_eq!(arguments(&Vec::new(), &vars, LIB, WORK), Ok(Vec::new()));
}

#[test]
fn arguments_report_the_first_fault() {
    let vars = table(&[("SIDE", "client")]);
    assert_eq!(
        arguments(&strings(&["{SIDE}", "[bad]", "{NOPE}"]), &vars, LIB, WORK),
        Err(InstallError::InvalidCoordinate("bad".to_string()))
    );
    assert_eq!(
        arguments(&strings(&["{NOPE}", "[bad]"]), &vars, LIB, WORK),
        Err(InstallError::MissingToken("NOPE".to_string()))
    );
}

#[test]
fn the_classpath_ends_with_the_processors_own_archive() {
    assert_eq!(
        classpath("p:tool:1", &strings(&["a:x:1", "b:y:2"]), &vec![true, true], LIB, WORK),
        Ok(strings(&[
            "libraries/a/x/1/x-1.jar",
            "libraries/b/y/2/y-2.jar",
            "libraries/p/tool/1/tool-1.jar",
        ]))
    );
    assert_eq!(
        classpath("p:tool:1", &Vec::new(), &Vec::new(), LIB, WORK),
        Ok(strings(&["libraries/p/tool/1/tool-1.jar"]))
    );
}

#[test]
fn a_classpath_entry_that_is_not_there_is_left_out() {
    assert_eq!(
        classpath("p:tool:1", &strings(&["a:x:1", "b:y:2", "c:z:3"]), &vec![true, false, true], LIB, WORK),
        Ok(strings(&[
            "libraries/a/x/1/x-1.jar",
            "libraries/c/z/3/z-3.jar",
            "libraries/p/tool/1/tool-1.jar",
        ]))
    );
    assert_eq!(
        classpath("p:tool:1", &strings(&["a:x:1", "b:y:2"]), &vec![true], LIB, WORK),
        Ok(strings(&["libraries/a/x/1/x-1.jar", "libraries/p/tool/1/tool-1.jar"]))
    );
}

#[test]
fn a_classpath_entry_that_is_no_coordinate_is_a_fault() {
    assert_eq!(
        classpath("p:tool:1", &strings(&["a:x:1", "bad"]), &vec![true, false], LIB, WORK),
        Err(InstallError::InvalidCoordinate("bad".to_string()))
    );
}

#[test]
fn a_classpath_outside_the_working_directory_is_a_fault() {
    assert_eq!(
        classpath("p:tool:1", &strings(&["a:x:1"]), &vec![true], LIB, "/other"),
        Err(InstallError::OutsideWorkDir("/work/libraries/a/x/1/x-1.jar".to_string()))
    );
    assert_eq!(
        classpath("p:tool:1", &strings(&["a:x:1"]), &vec![false], LIB, "/other"),
        Err(InstallError::OutsideWorkDir("/work/libraries/p/tool/1/tool-1.jar".to_string()))
    );
}

#[test]
fn main_class_reads_the_declared_entry_point() {
    assert_eq!(
        main_class("Manifest-Version: 1.0\nMain-Class: com.example.Main\nOther: x\n"),
        Some("com.example.Main".to_string())
    );
    assert_eq!(main_class("Main-Class: a.B"), Some("a.B".to_string()));
}

#[test]
fn main_class_is_tolerant_of_carriage_returns() {
    assert_eq!(
        main_class("Manifest-Version: 1.0\r\nMain-Class: com.example.Main\r\n\r\n"),
        Some("com.example.Main".to_string())
    );
    assert_eq!(main_class("Main-\rClass: a\r.B\r"), Some("a.B".to_string()));
}

#[test]
fn main_class_takes_the_first_declaring_line() {
    assert_eq!(
        main_class("Main-Class: first.One\nMain-Class: second.Two\n"),
        Some("first.One".to_string())
    );
}

#[test]
fn main_class_is_what_stands_behind_the_last_colon_and_space() {
    assert_eq!(main_class("Main-Class: a: b: c"), Some("c".to_string()));
    assert_eq!(main_class("Main-Class: "), Some(String::new()));
    assert_eq!(main_class("Main-Class:a.B"), Some("Main-Class:a.B".to_string()));
    assert_eq!(main_class("Main-Class:"), Some("Main-Class:".to_string()));
}

#[test]
fn main_class_is_absent_without_a_declaring_line() {
    assert_eq!(main_class(""), None);
    assert_eq!(main_class("Manifest-Version: 1.0\n"), None);
    assert_eq!(main_class(" Main-Class: a.B\n"), None);
    assert_eq!(main_class("main-class: a.B\n"), None);
    assert_eq!(main_class("X-Main-Class: a.B\nMain-Clas: b\n"), None);
}

#[test]
fn entry_point_from_maps_each_outcome() {
    assert_eq!(
        entry_point_from(&EntryRead::Text("Main-Class: a.B\n".to_string()), "p:tool:1"),
        Ok("a.B".to_string())
    );
    assert_eq!(
        entry_point_from(&EntryRead::Text("Nothing: here\n".to_string()), "p:tool:1"),
        Err(InstallError::EntryPointNotFound("p:tool:1".to_string()))
    );
    assert_eq!(
        entry_point_from(&EntryRead::Missing, "p:tool:1"),
        Err(InstallError::EntryPointNotFound("p:tool:1".to_string()))
    );
    assert_eq!(
        entry_point_from(&EntryRead::Unreadable, "p:tool:1"),
        Err(InstallError::ArchiveUnreadable("p:tool:1".to_string()))
    );
}

#[test]
fn an_archive_entry_is_read_as_text() {
    let bytes = archive(&[("a.txt", "alpha"), ("META-INF/MANIFEST.MF", "Main-Class: a.B\n")]);
    assert_eq!(
        read_archive_entry(bytes.clone(), "META-INF/MANIFEST.MF"),
        EntryRead::Text("Main-Class: a.B\n".to_string())
    );
    assert_eq!(read_archive_entry(bytes.clone(), "a.txt"), EntryRead::Text("alpha".to_string()));
    assert_eq!(read_archive_entry(bytes, "b.txt"), EntryRead::Missing);
}

#[test]
fn bytes_that_are_no_archive_are_unreadable() {
    assert_eq!(read_archive_entry(Vec::new(), "a.txt"), EntryRead::Unreadable);
    assert_eq!(
        read_archive_entry(b"Main-Class: a.B\n".to_vec(), "META-INF/MANIFEST.MF"),
        EntryRead::Unreadable
    );
}

#[test]
fn an_entry_that_is_no_text_is_unreadable() {
    let mut writer = ZipWriter::new(Cursor::new(Vec::new()));
    writer.start_file("bin", SimpleFileOptions::default()).unwrap();
    writer.write_all(&[0xff, 0xfe, 0x00, 0xc3]).unwrap();
    let bytes = writer.finish().unwrap().into_inner();
    assert_eq!(read_archive_entry(bytes, "bin"), EntryRead::Unreadable);
}

#[test]
fn entry_point_reads_the_manifest_of_the_archive() {
    let bytes = archive(&[
        ("com/example/Main.class", "cafebabe"),
        ("META-INF/MANIFEST.MF", "Manifest-Version: 1.0\r\nMain-Class: com.example.Main\r\n"),
    ]);
    assert_eq!(entry_point(bytes, "p:tool:1"), Ok("com.example.Main".to_string()));
    let bytes = archive(&[("com/example/Main.class", "cafebabe")]);
    assert_eq!(
        entry_point(bytes, "p:tool:1"),
        Err(InstallError::EntryPointNotFound("p:tool:1".to_string()))
    );
    let bytes = archive(&[("META-INF/MANIFEST.MF", "Manifest-Version: 1.0\r\n")]);
    assert_eq!(
        entry_point(bytes, "p:tool:1"),
        Err(InstallError::EntryPointNotFound("p:tool:1".to_string()))
    );
    assert_eq!(
        entry_point(vec![1, 2, 3], "p:tool:1"),
        Err(InstallError::ArchiveUnreadable("p:tool:1".to_string()))
    );
}

#[test]
fn command_puts_program_classpath_entry_point_and_arguments_in_a_row() {
    assert_eq!(
        command(
            "java",
            &strings(&["libraries/a.jar", "libraries/b.jar"]),
            ":",
            "a.B".to_string(),
            strings(&["--x", "1"]),
        ),
        strings(&["java", "-cp", "libraries/a.jar:libraries/b.jar", "a.B", "--x", "1"])
    );
    assert_eq!(
        command("/opt/jdk/bin/java", &strings(&["only.jar"]), ";", "M".to_string(), Vec::new()),
        strings(&["/opt/jdk/bin/java", "-cp", "only.jar", "M"])
    );
    assert_eq!(
        command("java", &strings(&["a", "b", "c"]), ";", "M".to_string(), Vec::new()),
        strings(&["java", "-cp", "a;b;c", "M"])
    );
}

fn tool() -> Processor {
    Processor {
        sides: None,
        jar: "p:tool:1".to_string(),
        classpath: strings(&["a:x:1", "b:y:2"]),
        args: strings(&["--side", "{SIDE}", "--in", "[a:x:1]", "--out", "{ROOT}/out.jar"]),
    }
}

fn tool_archive() -> Vec<u8> {
    archive(&[("META-INF/MANIFEST.MF", "Manifest-Version: 1.0\nMain-Class: p.Tool\n")])
}

#[test]
fn run_processor_builds_the_command_line() {
    let vars = table(&[("SIDE", "client"), ("ROOT", ".")]);
    let inspection = Inspection { jar: Some(tool_archive()), present: vec![true, true] };
    assert_eq!(
        run_processor(&tool(), &vars, &context(), inspection),
        Ok(strings(&[
            "java",
            "-cp",
            "libraries/a/x/1/x-1.jar:libraries/b/y/2/y-2.jar:libraries/p/tool/1/tool-1.jar",
            "p.Tool",
            "--side",
            "client",
            "--in",
            "libraries/a/x/1/x-1.jar",
            "--out",
            "./out.jar",
        ]))
    );
}

#[test]
fn run_processor_goes_on_without_a_missing_classpath_entry() {
    let vars = table(&[("SIDE", "client"), ("ROOT", ".")]);
    let inspection = Inspection { jar: Some(tool_archive()), present: vec![false, true] };
    let command = run_processor(&tool(), &vars, &context(), inspection).unwrap();
    assert_eq!(command[2], "libraries/b/y/2/y-2.jar:libraries/p/tool/1/tool-1.jar");
    assert_eq!(command.len(), 10);
}

#[test]
fn run_processor_uses_the_separator_of_the_context() {
    let vars = table(&[("SIDE", "client"), ("ROOT", ".")]);
    let inspection = Inspection { jar: Some(tool_archive()), present: vec![true, false] };
    let mut context = context();
    context.separator = ";".to_string();
    context.java = "javaw".to_string();
    let command = run_processor(&tool(), &vars, &context, inspection).unwrap();
    assert_eq!(command[0], "javaw");
    assert_eq!(command[2], "libraries/a/x/1/x-1.jar;libraries/p/tool/1/tool-1.jar");
}

#[test]
fn run_processor_needs_the_processors_archive() {
    let vars = table(&[("SIDE", "client"), ("ROOT", ".")]);
    let inspection = Inspection { jar: None, present: vec![true, true] };
    assert_eq!(
        run_processor(&tool(), &vars, &context(), inspection),
        Err(InstallError::ProcessorJarMissing("p:tool:1".to_string()))
    );
}

#[test]
fn run_processor_needs_an_entry_point() {
    let vars = table(&[("SIDE", "client"), ("ROOT", ".")]);
    let inspection = Inspection {
        jar: Some(archive(&[("META-INF/MANIFEST.MF", "Manifest-Version: 1.0\n")])),
        present: vec![true, true],
    };
    assert_eq!(
        run_processor(&tool(), &vars, &context(), inspection),
        Err(InstallError::EntryPointNotFound("p:tool:1".to_string()))
    );
    let inspection = Inspection { jar: Some(vec![0, 1, 2]), present: vec![true, true] };
    assert_eq!(
        run_processor(&tool(), &vars, &context(), inspection),
        Err(InstallError::ArchiveUnreadable("p:tool:1".to_string()))
    );
}

#[test]
fn run_processor_needs_every_token() {
    let vars = table(&[("SIDE", "client")]);
    let inspection = Inspection { jar: Some(tool_archive()), present: vec![true, true] };
    assert_eq!(
        run_processor(&tool(), &vars, &context(), inspection),
        Err(InstallError::MissingToken("ROOT".to_string()))
    );
}

#[test]
fn run_processor_reports_faults_in_their_order() {
    let vars = table(&[]);
    let mut broken = tool();
    broken.jar = "nope".to_string();
    let inspection = Inspection { jar: None, present: Vec::new() };
    assert_eq!(
        run_processor(&broken, &vars, &context(), inspection),
        Err(InstallError::InvalidCoordinate("nope".to_string()))
    );
    let mut broken = tool();
    broken.classpath = strings(&["bad"]);
    let inspection = Inspection { jar: None, present: Vec::new() };
    assert_eq!(
        run_processor(&broken, &vars, &context(), inspection),
        Err(InstallError::ProcessorJarMissing("p:tool:1".to_string()))
    );
    let inspection = Inspection { jar: Some(vec![0]), present: Vec::new() };
    assert_eq!(
        run_processor(&broken, &vars, &context(), inspection),
        Err(InstallError::InvalidCoordinate("bad".to_string()))
    );
    let inspection = Inspection { jar: Some(vec![0]), present: Vec::new() };
    assert_eq!(
        run_processor(&tool(), &vars, &context(), inspection),
        Err(InstallError::MissingToken("SIDE".to_string()))
    );
}

#[test]
fn a_processor_without_sides_runs_on_both() {
    let mut processor = tool();
    assert!(processor.applies_to(Side::Client));
    assert!(processor.applies_to(Side::Server));
    processor.sides = Some(vec![Side::Server]);
    assert!(!processor.applies_to(Side::Client));
    assert!(processor.applies_to(Side::Server));
    processor.sides = Some(Vec::new());
    assert!(!processor.applies_to(Side::Client));
    assert!(!processor.applies_to(Side::Server));
    processor.sides = Some(vec![Side::Client, Side::Server]);
    assert!(processor.applies_to(Side::Client));
    assert!(processor.applies_to(Side::Server));
}
