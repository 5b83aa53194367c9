//! The processors of an install profile: which of them run on a side, and
//! the command line that runs one.

use crate::archive::{entry_state, read_archive_entry, EntryRead, EntryState};
use crate::error::{text_result, texts_result, Fault, InstallError};
use crate::maven::{is_coordinate, maven_path, path_chars};
use crate::path::{join_chars, join_path, relative_chars, relative_to};
use crate::seqs::{
    before, first_index, is_bracketed, joined, last_pair, lemma_cut, lemma_first_index,
    unbracketed, views, without_char,
};
use crate::side::{contains_side, Side};
use crate::table::TokenMap;
use crate::text;
use vstd::prelude::*;

verus! {

/// One step of the installation: an archive to run, the archives it needs
/// on its classpath, and its arguments. Without `sides` it runs on both.
#[derive(Debug, Clone)]
pub struct Processor {
    pub sides: Option<Vec<Side>>,
    pub jar: String,
    pub classpath: Vec<String>,
    pub args: Vec<String>,
}

/// What a `Processor` stands for.
pub struct ProcessorView {
    pub sides: Option<Seq<Side>>,
    pub jar: Seq<char>,
    pub classpath: Seq<Seq<char>>,
    pub args: Seq<Seq<char>>,
}

impl View for Processor {
    type V = ProcessorView;

    open spec fn view(&self) -> ProcessorView {
        ProcessorView {
            sides: match self.sides {
                Some(sides) => Some(sides@),
                None => None,
            },
            jar: self.jar@,
            classpath: views(self.classpath@),
            args: views(self.args@),
        }
    }
}

impl ProcessorView {
    /// Whether the processor runs on `side`: it names no sides, or `side`
    /// is among those it names.
    pub open spec fn applies_to(self, side: Side) -> bool {
        match self.sides {
            Some(sides) => sides.contains(side),
            None => true,
        }
    }
}

impl Processor {
    /// Whether the processor runs on `side`.
    pub fn applies_to(&self, side: Side) -> (r: bool)
        ensures
            r == self@.applies_to(side),
    {
        match &self.sides {
            Some(sides) => contains_side(sides, side),
            None => true,
        }
    }
}

/// What the installation knows of a processor's files once it has looked:
/// the bytes of the processor's own archive, if that file is there, and for
/// each classpath entry, in the entries' order, whether its file is there.
#[derive(Debug)]
pub struct Inspection {
    pub jar: Option<Vec<u8>>,
    pub present: Vec<bool>,
}

/// What an `Inspection` stands for.
pub struct InspectionView {
    pub jar: Option<Seq<u8>>,
    pub present: Seq<bool>,
}

impl View for Inspection {
    type V = InspectionView;

    open spec fn view(&self) -> InspectionView {
        InspectionView {
            jar: match self.jar {
                Some(bytes) => Some(bytes@),
                None => None,
            },
            present: self.present@,
        }
    }
}

/// The directories, the side and the tools of one run.
#[derive(Debug, Clone)]
pub struct RunContext {
    /// The side that is installed.
    pub side: Side,
    /// The directory that holds the libraries.
    pub library_dir: String,
    /// The directory in which the processors run.
    pub work_dir: String,
    /// The program that runs a processor.
    pub java: String,
    /// What the host puts between the paths of a path list.
    pub separator: String,
}

/// What a `RunContext` stands for.
pub struct RunContextView {
    pub side: Side,
    pub library_dir: Seq<char>,
    pub work_dir: Seq<char>,
    pub java: Seq<char>,
    pub separator: Seq<char>,
}

impl View for RunContext {
    type V = RunContextView;

    open spec fn view(&self) -> RunContextView {
        RunContextView {
            side: self.side,
            library_dir: self.library_dir@,
            work_dir: self.work_dir@,
            java: self.java@,
            separator: self.separator@,
        }
    }
}

/// `prefix` in front of the text `r`, where `r` is a text.
pub open spec fn prepend(prefix: Seq<char>, r: Result<Seq<char>, Fault>) -> Result<
    Seq<char>,
    Fault,
> {
    match r {
        Ok(rest) => Ok(prefix + rest),
        Err(e) => Err(e),
    }
}

/// The template `t` with its placeholders filled in from `vars`, in one
/// pass from left to right. A placeholder is a `{`, the name up to the next
/// `}`, and that `}`; the value of the name takes its place and is not
/// read again. A `{` with no `}` behind it stands for itself. The first
/// placeholder whose name `vars` does not hold makes the whole a fault.
pub open spec fn rendered(t: Seq<char>, vars: Map<Seq<char>, Seq<char>>) -> Result<
    Seq<char>,
    Fault,
>
    decreases t.len(),
{
    if t.len() == 0 {
        Ok(Seq::empty())
    } else {
        let body = t.skip(1);
        let close = first_index(body, '}');
        if t[0] == '{' && 0 <= close < body.len() {
            let name = body.take(close);
            if vars.contains_key(name) {
                prepend(vars[name], rendered(body.skip(close + 1), vars))
            } else {
                Err(Fault::MissingToken(name))
            }
        } else {
            prepend(seq![t[0]], rendered(body, vars))
        }
    }
}

/// The path of the coordinate's file in the library directory `lib`.
pub open spec fn stored(coordinate: Seq<char>, lib: Seq<char>) -> Result<Seq<char>, Fault> {
    if is_coordinate(coordinate) {
        Ok(join_path(lib, maven_path(coordinate)))
    } else {
        Err(Fault::InvalidCoordinate(coordinate))
    }
}

/// The path of the coordinate's file in the library directory `lib`, as
/// seen from the working directory `work`.
pub open spec fn located(coordinate: Seq<char>, lib: Seq<char>, work: Seq<char>) -> Result<
    Seq<char>,
    Fault,
> {
    if is_coordinate(coordinate) {
        let full = join_path(lib, maven_path(coordinate));
        match relative_to(full, work) {
            Some(p) => Ok(p),
            None => Err(Fault::OutsideWorkDir(full)),
        }
    } else {
        Err(Fault::InvalidCoordinate(coordinate))
    }
}

/// The argument that the template `arg` stands for: the rendered template,
/// or, where that is wrapped in square brackets, the located file of the
/// coordinate inside them.
pub open spec fn argument_of(
    arg: Seq<char>,
    vars: Map<Seq<char>, Seq<char>>,
    lib: Seq<char>,
    work: Seq<char>,
) -> Result<Seq<char>, Fault> {
    match rendered(arg, vars) {
        Ok(s) => if is_bracketed(s) {
            located(unbracketed(s), lib, work)
        } else {
            Ok(s)
        },
        Err(e) => Err(e),
    }
}

/// The arguments that the templates `args` stand for, in their order; the
/// fault of the first template that stands for none.
pub open spec fn arguments_of(
    args: Seq<Seq<char>>,
    vars: Map<Seq<char>, Seq<char>>,
    lib: Seq<char>,
    work: Seq<char>,
) -> Result<Seq<Seq<char>>, Fault>
    decreases args.len(),
{
    if args.len() == 0 {
        Ok(Seq::empty())
    } else {
        match arguments_of(args.drop_last(), vars, lib, work) {
            Ok(done) => match argument_of(args.last(), vars, lib, work) {
                Ok(a) => Ok(done.push(a)),
                Err(e) => Err(e),
            },
            Err(e) => Err(e),
        }
    }
}

/// Whether the inspection found the file of the classpath entry `i`.
pub open spec fn is_present(present: Seq<bool>, i: int) -> bool {
    0 <= i < present.len() && present[i]
}

/// The located files of the classpath entries that are there, in the
/// entries' order. An entry whose file is missing is left out; one that is
/// no coordinate is a fault, there or not.
pub open spec fn entries_of(
    entries: Seq<Seq<char>>,
    present: Seq<bool>,
    lib: Seq<char>,
    work: Seq<char>,
) -> Result<Seq<Seq<char>>, Fault>
    decreases entries.len(),
{
    if entries.len() == 0 {
        Ok(Seq::empty())
    } else {
        match entries_of(entries.drop_last(), present, lib, work) {
            Ok(done) => if !is_coordinate(entries.last()) {
                Err(Fault::InvalidCoordinate(entries.last()))
            } else if is_present(present, entries.len() - 1) {
                match located(entries.last(), lib, work) {
                    Ok(p) => Ok(done.push(p)),
                    Err(e) => Err(e),
                }
            } else {
                Ok(done)
            },
            Err(e) => Err(e),
        }
    }
}

/// The classpath of a processor: its entries that are there, then its own
/// archive, each as seen from the working directory.
pub open spec fn classpath_of(
    jar: Seq<char>,
    entries: Seq<Seq<char>>,
    present: Seq<bool>,
    lib: Seq<char>,
    work: Seq<char>,
) -> Result<Seq<Seq<char>>, Fault> {
    match entries_of(entries, present, lib, work) {
        Ok(found) => match located(jar, lib, work) {
            Ok(own) => Ok(found.push(own)),
            Err(e) => Err(e),
        },
        Err(e) => Err(e),
    }
}

/// The value of the first line of `text` that begins with `Main-Class:`.
/// Lines end at a line feed, and carriage returns count for nothing. The
/// value is what stands behind the line's last colon that has a space
/// behind it; a line without such a colon is its own value.
pub open spec fn main_class_of(text: Seq<char>) -> Option<Seq<char>>
    decreases text.len(),
{
    let line = without_char(before(text, '\n'), '\r');
    let cut = first_index(text, '\n');
    if "Main-Class:"@.is_prefix_of(line) {
        if last_pair(line, ':', ' ') >= 0 {
            Some(line.skip(last_pair(line, ':', ' ') + 2))
        } else {
            Some(line)
        }
    } else if 0 <= cut < text.len() {
        main_class_of(text.skip(cut + 1))
    } else {
        None
    }
}

/// The entry point that an archive declares, from what came of reading its
/// manifest; `jar` is the archive's coordinate, for the fault.
pub open spec fn entry_point_of(manifest: EntryState, jar: Seq<char>) -> Result<Seq<char>, Fault> {
    match manifest {
        EntryState::Unreadable => Err(Fault::ArchiveUnreadable(jar)),
        EntryState::Missing => Err(Fault::EntryPointNotFound(jar)),
        EntryState::Text(text) => match main_class_of(text) {
            Some(class) => Ok(class),
            None => Err(Fault::EntryPointNotFound(jar)),
        },
    }
}

/// The name of the manifest in an archive.
pub open spec fn manifest_name() -> Seq<char> {
    "META-INF/MANIFEST.MF"@
}

/// The command line: the program, `-cp`, the classpath as one path list,
/// the entry point, and the arguments.
pub open spec fn command_of(
    java: Seq<char>,
    classpath: Seq<Seq<char>>,
    separator: Seq<char>,
    entry: Seq<char>,
    args: Seq<Seq<char>>,
) -> Seq<Seq<char>> {
    seq![java, "-cp"@, joined(classpath, separator), entry] + args
}

/// The command line that runs `processor`, from what the inspection found.
/// The faults come in this order: the processor's archive is no coordinate;
/// its file is missing; a classpath entry, in the entries' order; the
/// archive's own place; an argument, in the arguments' order; the entry
/// point.
pub open spec fn command_for(
    processor: ProcessorView,
    vars: Map<Seq<char>, Seq<char>>,
    context: RunContextView,
    inspection: InspectionView,
) -> Result<Seq<Seq<char>>, Fault> {
    if !is_coordinate(processor.jar) {
        Err(Fault::InvalidCoordinate(processor.jar))
    } else {
        match inspection.jar {
            None => Err(Fault::ProcessorJarMissing(processor.jar)),
            Some(bytes) => match classpath_of(
                processor.jar,
                processor.classpath,
                inspection.present,
                context.library_dir,
                context.work_dir,
            ) {
                Err(e) => Err(e),
                Ok(classpath) => match arguments_of(
                    processor.args,
                    vars,
                    context.library_dir,
                    context.work_dir,
                ) {
                    Err(e) => Err(e),
                    Ok(args) => match entry_point_of(
                        entry_state(bytes, manifest_name()),
                        processor.jar,
                    ) {
                        Err(e) => Err(e),
                        Ok(entry) => Ok(
                            command_of(context.java, classpath, context.separator, entry, args),
                        ),
                    },
                },
            },
        }
    }
}

/// A text or the fault that stands in its place.
pub open spec fn chars_result(r: Result<Vec<char>, InstallError>) -> Result<Seq<char>, Fault> {
    match r {
        Ok(v) => Ok(v@),
        Err(e) => Err(e@),
    }
}

/// One pass, placeholders: a placeholder is filled in with the value of
/// its name as it stands, whatever that value holds, and the pass goes on
/// behind the placeholder. The value is not read again.
pub proof fn lemma_value_is_not_read_again(
    name: Seq<char>,
    rest: Seq<char>,
    vars: Map<Seq<char>, Seq<char>>,
)
    requires
        vars.contains_key(name),
        !name.contains('}'),
    ensures
        rendered(seq!['{'] + name + seq!['}'] + rest, vars) == prepend(
            vars[name],
            rendered(rest, vars),
        ),
{
    let t = seq!['{'] + name + seq!['}'] + rest;
    let body = t.skip(1);
    assert(body =~= name + seq!['}'] + rest);
    lemma_cut(name, '}', rest);
    lemma_first_index(body, '}');
    assert(before(body, '}').len() == first_index(body, '}'));
    assert(first_index(body, '}') == name.len());
    assert(body.take(name.len() as int) =~= name);
    assert(body.skip(name.len() as int + 1) =~= rest);
    assert(t[0] == '{');
}

/// One pass, other text: a character that opens no placeholder stands for
/// itself, and the pass goes on behind it.
pub proof fn lemma_plain_text_stays(c: char, rest: Seq<char>, vars: Map<Seq<char>, Seq<char>>)
    requires
        c != '{',
    ensures
        rendered(seq![c] + rest, vars) == prepend(seq![c], rendered(rest, vars)),
{
    assert((seq![c] + rest).skip(1) =~= rest);
}

/// The template `t` with its placeholders filled in from `vars`.
pub(crate) fn render_chars(t: &Vec<char>, vars: &TokenMap<String>) -> (r: Result<Vec<char>, InstallError>)
    ensures
        chars_result(r) == rendered(t@, vars.texts()),
{
    let mut out: Vec<char> = Vec::new();
    let mut i: usize = 0;
    assert(t@.skip(0) == t@);
    assert(prepend(out@, rendered(t@, vars.texts())) == rendered(t@, vars.texts())) by {
        match rendered(t@, vars.texts()) {
            Ok(rest) => {
                assert(out@ + rest =~= rest);
            },
            Err(_) => {},
        }
    }
    while i < t.len()
        invariant
            i <= t.len(),
            prepend(out@, rendered(t@.skip(i as int), vars.texts())) == rendered(t@, vars.texts()),
        decreases t.len() - i,
    {
        let ghost rest = t@.skip(i as int);
        let ghost body = rest.skip(1);
        let ghost seen = out@;
        assert(body == t@.skip(i + 1));
        assert(rest[0] == t@[i as int]);
        let close = if t[i] == '{' {
            text::find_from(t, i + 1, '}')
        } else {
            t.len()
        };
        if close < t.len() {
            let name = text::string_of(&text::slice(t, i + 1, close));
            assert(name@ == body.take(close - i - 1));
            match vars.get(name.as_str()) {
                Some(value) => {
                    text::push_str(&mut out, value.as_str());
                    assert(body.skip(close - i - 1 + 1) == t@.skip(close + 1));
                    assert(prepend(out@, rendered(t@.skip(close + 1), vars.texts())) == prepend(
                        seen,
                        rendered(rest, vars.texts()),
                    )) by {
                        match rendered(t@.skip(close + 1), vars.texts()) {
                            Ok(tail) => {
                                assert((seen + value@) + tail =~= seen + (value@ + tail));
                            },
                            Err(_) => {},
                        }
                    }
                    i = close + 1;
                },
                None => {
                    return Err(InstallError::MissingToken(name));
                },
            }
        } else {
            out.push(t[i]);
            assert(rendered(rest, vars.texts()) == prepend(
                seq![rest[0]],
                rendered(body, vars.texts()),
            ));
            assert(prepend(out@, rendered(body, vars.texts())) == prepend(
                seen,
                rendered(rest, vars.texts()),
            )) by {
                match rendered(body, vars.texts()) {
                    Ok(tail) => {
                        assert(seen.push(rest[0]) + tail =~= seen + (seq![rest[0]] + tail));
                    },
                    Err(_) => {},
                }
            }
            i = i + 1;
        }
    }
    assert(t@.skip(t@.len() as int) =~= Seq::<char>::empty());
    assert(out@ + Seq::<char>::empty() =~= out@);
    Ok(out)
}

/// The template with its placeholders filled in from `vars`.
pub fn render(template: &str, vars: &TokenMap<String>) -> (r: Result<String, InstallError>)
    ensures
        text_result(r) == rendered(template@, vars.texts()),
{
    let t = text::chars_of(template);
    match render_chars(&t, vars) {
        Ok(out) => Ok(text::string_of(&out)),
        Err(e) => Err(e),
    }
}

/// The path of the coordinate's file in the library directory.
pub fn store(coordinate: &str, lib_path: &str) -> (r: Result<String, InstallError>)
    ensures
        text_result(r) == stored(coordinate@, lib_path@),
{
    let c = text::chars_of(coordinate);
    match path_chars(&c) {
        Some(rel) => {
            let lib = text::chars_of(lib_path);
            Ok(text::string_of(&join_chars(&lib, &rel)))
        },
        None => Err(InstallError::InvalidCoordinate(coordinate.to_owned())),
    }
}

/// The path of the coordinate's file in the library directory, as seen from
/// the working directory.
pub(crate) fn locate_chars(coordinate: &Vec<char>, lib_path: &str, work_dir: &str) -> (r: Result<
    String,
    InstallError,
>)
    ensures
        text_result(r) == located(coordinate@, lib_path@, work_dir@),
{
    match path_chars(coordinate) {
        Some(rel) => {
            let lib = text::chars_of(lib_path);
            let work = text::chars_of(work_dir);
            let full = join_chars(&lib, &rel);
            match relative_chars(&full, &work) {
                Some(p) => Ok(text::string_of(&p)),
                None => Err(InstallError::OutsideWorkDir(text::string_of(&full))),
            }
        },
        None => Err(InstallError::InvalidCoordinate(text::string_of(coordinate))),
    }
}

/// The path of the coordinate's file in the library directory, as seen from
/// the working directory.
pub fn locate(coordinate: &str, lib_path: &str, work_dir: &str) -> (r: Result<String, InstallError>)
    ensures
        text_result(r) == located(coordinate@, lib_path@, work_dir@),
{
    let c = text::chars_of(coordinate);
    locate_chars(&c, lib_path, work_dir)
}

/// The argument that the template `arg` stands for.
pub fn argument(arg: &str, vars: &TokenMap<String>, lib_path: &str, work_dir: &str) -> (r: Result<
    String,
    InstallError,
>)
    ensures
        text_result(r) == argument_of(arg@, vars.texts(), lib_path@, work_dir@),
{
    let t = text::chars_of(arg);
    match render_chars(&t, vars) {
        Ok(s) => {
            if s.len() >= 2 && s[0] == '[' && s[s.len() - 1] == ']' {
                let inner = text::unbracketed(&s);
                locate_chars(&inner, lib_path, work_dir)
            } else {
                Ok(text::string_of(&s))
            }
        },
        Err(e) => Err(e),
    }
}

/// The arguments that the templates `args` stand for.
pub fn arguments(
    args: &Vec<String>,
    vars: &TokenMap<String>,
    lib_path: &str,
    work_dir: &str,
) -> (r: Result<Vec<String>, InstallError>)
    ensures
        texts_result(r) == arguments_of(views(args@), vars.texts(), lib_path@, work_dir@),
{
    let mut out: Vec<String> = Vec::new();
    let mut i: usize = 0;
    let ghost all = views(args@);
    assert(all.take(0) =~= Seq::<Seq<char>>::empty());
    assert(views(out@) =~= Seq::<Seq<char>>::empty());
    while i < args.len()
        invariant
            i <= args.len(),
            all == views(args@),
            arguments_of(all.take(i as int), vars.texts(), lib_path@, work_dir@) == Ok::<
                Seq<Seq<char>>,
                Fault,
            >(views(out@)),
        decreases args.len() - i,
    {
        let ghost done = views(out@);
        assert(all.take(i + 1).drop_last() =~= all.take(i as int));
        assert(all.take(i + 1).last() == args@[i as int]@);
        match argument(args[i].as_str(), vars, lib_path, work_dir) {
            Ok(a) => {
                out.push(a);
                assert(views(out@) =~= done.push(a@));
            },
            Err(e) => {
                proof {
                    lemma_arguments_fault(
                        all,
                        i as int,
                        vars.texts(),
                        lib_path@,
                        work_dir@,
                    );
                }
                return Err(e);
            },
        }
        i = i + 1;
    }
    assert(all.take(args@.len() as int) =~= all);
    Ok(out)
}

/// A fault among the first arguments is the fault of them all.
proof fn lemma_arguments_fault(
    args: Seq<Seq<char>>,
    i: int,
    vars: Map<Seq<char>, Seq<char>>,
    lib: Seq<char>,
    work: Seq<char>,
)
    requires
        0 <= i < args.len(),
        arguments_of(args.take(i + 1), vars, lib, work) is Err,
    ensures
        arguments_of(args, vars, lib, work) == arguments_of(args.take(i + 1), vars, lib, work),
    decreases args.len(),
{
    if i + 1 < args.len() {
        assert(args.drop_last().take(i + 1) =~= args.take(i + 1));
        lemma_arguments_fault(args.drop_last(), i, vars, lib, work);
    } else {
        assert(args.take(i + 1) =~= args);
    }
}

/// A fault among the first classpath entries is the fault of them all.
proof fn lemma_entries_fault(
    entries: Seq<Seq<char>>,
    i: int,
    present: Seq<bool>,
    lib: Seq<char>,
    work: Seq<char>,
)
    requires
        0 <= i < entries.len(),
        entries_of(entries.take(i + 1), present, lib, work) is Err,
    ensures
        entries_of(entries, present, lib, work) == entries_of(
            entries.take(i + 1),
            present,
            lib,
            work,
        ),
    decreases entries.len(),
{
    if i + 1 < entries.len() {
        assert(entries.drop_last().take(i + 1) =~= entries.take(i + 1));
        lemma_entries_fault(entries.drop_last(), i, present, lib, work);
    } else {
        assert(entries.take(i + 1) =~= entries);
    }
}

/// The classpath of a processor whose archive is the coordinate `jar`.
pub fn classpath(
    jar: &str,
    entries: &Vec<String>,
    present: &Vec<bool>,
    lib_path: &str,
    work_dir: &str,
) -> (r: Result<Vec<String>, InstallError>)
    ensures
        texts_result(r) == classpath_of(jar@, views(entries@), present@, lib_path@, work_dir@),
{
    let mut out: Vec<String> = Vec::new();
    let mut i: usize = 0;
    let ghost all = views(entries@);
    assert(all.take(0) =~= Seq::<Seq<char>>::empty());
    assert(views(out@) =~= Seq::<Seq<char>>::empty());
    while i < entries.len()
        invariant
            i <= entries.len(),
            all == views(entries@),
            entries_of(all.take(i as int), present@, lib_path@, work_dir@) == Ok::<
                Seq<Seq<char>>,
                Fault,
            >(views(out@)),
        decreases entries.len() - i,
    {
        let ghost done = views(out@);
        assert(all.take(i + 1).drop_last() =~= all.take(i as int));
        assert(all.take(i + 1).last() == entries@[i as int]@);
        assert(all.take(i + 1).len() - 1 == i);
        let there = i < present.len() && present[i];
        match locate(entries[i].as_str(), lib_path, work_dir) {
            Ok(p) => {
                if there {
                    out.push(p);
                    assert(views(out@) =~= done.push(p@));
                }
            },
            Err(e) => {
                let fatal = match &e {
                    InstallError::InvalidCoordinate(_) => true,
                    _ => there,
                };
                if fatal {
                    proof {
                        lemma_entries_fault(all, i as int, present@, lib_path@, work_dir@);
                    }
                    return Err(e);
                }
            },
        }
        i = i + 1;
    }
    assert(all.take(entries@.len() as int) =~= all);
    match locate(jar, lib_path, work_dir) {
        Ok(own) => {
            let ghost found = views(out@);
            out.push(own);
            assert(views(out@) =~= found.push(own@));
            Ok(out)
        },
        Err(e) => Err(e),
    }
}

/// The value of the first line of `text` that begins with `Main-Class:`.
pub fn main_class(text: &str) -> (r: Option<String>)
    ensures
        match r {
            Some(class) => main_class_of(text@) == Some(class@),
            None => main_class_of(text@) is None,
        },
{
    let t = text::chars_of(text);
    let mut start: usize = 0;
    assert(t@.skip(0) == t@);
    loop
        invariant
            start <= t.len(),
            t@ == text@,
            main_class_of(t@.skip(start as int)) == main_class_of(text@),
        decreases t.len() - start,
    {
        let ghost rest = t@.skip(start as int);
        let end = text::find_from(&t, start, '\n');
        let raw = text::slice(&t, start, end);
        assert(raw@ == before(rest, '\n'));
        let line = text::without_char(&raw, '\r');
        if text::starts_with(&line, "Main-Class:") {
            return match text::find_last_pair(&line, ':', ' ') {
                Some(at) => Some(text::string_of(&text::slice(&line, at + 2, line.len()))),
                None => Some(text::string_of(&line)),
            };
        }
        if end >= t.len() {
            return None;
        }
        assert(rest.skip(end - start + 1) == t@.skip(end + 1));
        start = end + 1;
    }
}

/// The entry point that an archive declares, from what came of reading its
/// manifest; `jar` is the archive's coordinate, for the error.
pub fn entry_point_from(manifest: &EntryRead, jar: &str) -> (r: Result<String, InstallError>)
    ensures
        text_result(r) == entry_point_of(manifest@, jar@),
{
    match manifest {
        EntryRead::Unreadable => Err(InstallError::ArchiveUnreadable(jar.to_owned())),
        EntryRead::Missing => Err(InstallError::EntryPointNotFound(jar.to_owned())),
        EntryRead::Text(text) => match main_class(text.as_str()) {
            Some(class) => Ok(class),
            None => Err(InstallError::EntryPointNotFound(jar.to_owned())),
        },
    }
}

/// The entry point that the archive `bytes` declares in its manifest.
pub fn entry_point(bytes: Vec<u8>, jar: &str) -> (r: Result<String, InstallError>)
    ensures
        text_result(r) == entry_point_of(entry_state(bytes@, manifest_name()), jar@),
{
    let manifest = read_archive_entry(bytes, "META-INF/MANIFEST.MF");
    entry_point_from(&manifest, jar)
}

/// The command line: the program, `-cp`, the classpath as one path list,
/// the entry point, and the arguments.
pub fn command(
    java: &str,
    classpath: &Vec<String>,
    separator: &str,
    entry: String,
    args: Vec<String>,
) -> (r: Vec<String>)
    ensures
        views(r@) == command_of(java@, views(classpath@), separator@, entry@, views(args@)),
{
    let sep = text::chars_of(separator);
    let list = text::string_of(&text::joined(classpath, &sep));
    let mut out: Vec<String> = Vec::new();
    out.push(java.to_owned());
    out.push("-cp".to_owned());
    out.push(list);
    out.push(entry);
    let ghost head = views(out@);
    assert(head =~= seq![java@, "-cp"@, joined(views(classpath@), separator@), entry@]);
    let mut args = args;
    let ghost tail = views(args@);
    out.append(&mut args);
    assert(views(out@) =~= head + tail);
    out
}

/// The command line that runs `processor`, from what the inspection of its
/// files found.
pub fn run_processor(
    processor: &Processor,
    vars: &TokenMap<String>,
    context: &RunContext,
    inspection: Inspection,
) -> (r: Result<Vec<String>, InstallError>)
    ensures
        texts_result(r) == command_for(processor@, vars.texts(), context@, inspection@),
{
    let jar = processor.jar.as_str();
    let lib = context.library_dir.as_str();
    let work = context.work_dir.as_str();
    match store(jar, lib) {
        Ok(_) => {},
        Err(e) => {
            return Err(e);
        },
    }
    let bytes = match inspection.jar {
        Some(bytes) => bytes,
        None => {
            return Err(InstallError::ProcessorJarMissing(jar.to_owned()));
        },
    };
    let paths = match classpath(jar, &processor.classpath, &inspection.present, lib, work) {
        Ok(paths) => paths,
        Err(e) => {
            return Err(e);
        },
    };
    let args = match arguments(&processor.args, vars, lib, work) {
        Ok(args) => args,
        Err(e) => {
            return Err(e);
        },
    };
    let entry = match entry_point(bytes, jar) {
        Ok(entry) => entry,
        Err(e) => {
            return Err(e);
        },
    };
    Ok(command(context.java.as_str(), &paths, context.separator.as_str(), entry, args))
}

} // verus!
