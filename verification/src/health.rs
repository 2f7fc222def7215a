//! Whether everything that a session needs is there.

use crate::config::{url_scheme, Config, ConfigError, StatusUiConfig};
use crate::path::{join, path_join, SEPARATOR};
use crate::text::{joined, opt_view, views};
use vstd::prelude::*;

verus! {

/// The byte that parts the directories in `PATH`.
pub const PATH_SEPARATOR: u8 = 0x3a;

/// The programs that a session runs.
pub open spec fn command_names() -> Seq<Seq<char>> {
    seq!["swaymsg"@, "wl-copy"@, "wl-paste"@, "wtype"@, "notify-send"@]
}

/// The programs that a session runs, in the order in which they are checked.
pub fn required_commands() -> (names: Vec<&'static str>)
    ensures
        names@.len() == command_names().len(),
        forall|i: int| 0 <= i < names@.len() ==> (#[trigger] names@[i])@ == command_names()[i],
{
    let mut names: Vec<&'static str> = Vec::new();
    names.push("swaymsg");
    names.push("wl-copy");
    names.push("wl-paste");
    names.push("wtype");
    names.push("notify-send");
    names
}

/// The directories in the value of `PATH`.
pub open spec fn path_dirs(path: Seq<u8>) -> Seq<Seq<u8>>
    decreases path.len(),
{
    if path.len() == 0 {
        seq![Seq::<u8>::empty()]
    } else {
        let before = path_dirs(path.drop_last());
        if path.last() == PATH_SEPARATOR {
            before.push(Seq::<u8>::empty())
        } else {
            before.drop_last().push(before.last().push(path.last()))
        }
    }
}

/// The bytes of each path in a list.
pub open spec fn byte_views(paths: Seq<Vec<u8>>) -> Seq<Seq<u8>> {
    Seq::new(paths.len(), |i: int| paths[i]@)
}

/// The directories in the value of `PATH`.
pub fn split_path(path: &[u8]) -> (dirs: Vec<Vec<u8>>)
    ensures
        byte_views(dirs@) == path_dirs(path@),
{
    let mut dirs: Vec<Vec<u8>> = Vec::new();
    let mut current: Vec<u8> = Vec::new();
    let mut next: usize = 0;
    assert(byte_views(dirs@).push(current@) =~= path_dirs(path@.take(0)));
    while next < path.len()
        invariant
            next <= path@.len(),
            byte_views(dirs@).push(current@) == path_dirs(path@.take(next as int)),
        decreases path@.len() - next,
    {
        let ghost before = byte_views(dirs@).push(current@);
        assert(path@.take(next + 1).drop_last() =~= path@.take(next as int));
        if path[next] == PATH_SEPARATOR {
            dirs.push(current);
            current = Vec::new();
            assert(byte_views(dirs@) =~= before);
        } else {
            assert(before.drop_last() =~= byte_views(dirs@));
            current.push(path[next]);
        }
        next = next + 1;
    }
    assert(path@.take(next as int) =~= path@);
    let ghost before = byte_views(dirs@).push(current@);
    dirs.push(current);
    assert(byte_views(dirs@) =~= before);
    dirs
}

/// The files that can be a program: where its name is a path that file alone,
/// else the file of that name in each directory of `PATH`, if it is set.
pub open spec fn candidates(command: Seq<u8>, path: Option<Seq<u8>>) -> Seq<Seq<u8>> {
    if command.contains(SEPARATOR) {
        seq![command]
    } else {
        match path {
            Some(path) => path_dirs(path).map_values(|dir: Seq<u8>| path_join(dir, command)),
            None => Seq::empty(),
        }
    }
}

/// The files that can be a program, with the value of `PATH`. The program is
/// there where one of them is a file.
pub fn command_candidates(command: &[u8], path: Option<&[u8]>) -> (files: Vec<Vec<u8>>)
    ensures
        byte_views(files@) == candidates(command@, crate::path::opt_bytes(path)),
{
    let mut files: Vec<Vec<u8>> = Vec::new();
    let mut next: usize = 0;
    while next < command.len()
        invariant
            next <= command@.len(),
            forall|i: int| 0 <= i < next ==> #[trigger] command@[i] != SEPARATOR,
            files@.len() == 0,
        decreases command@.len() - next,
    {
        if command[next] == SEPARATOR {
            assert(command@.contains(SEPARATOR)) by {
                assert(command@[next as int] == SEPARATOR);
            }
            let mut own: Vec<u8> = Vec::new();
            own.extend_from_slice(command);
            assert(own@ =~= command@);
            files.push(own);
            assert(byte_views(files@) =~= seq![command@]);
            return files;
        }
        next = next + 1;
    }
    assert(!command@.contains(SEPARATOR));
    match path {
        Some(path) => {
            let dirs: Vec<Vec<u8>> = split_path(path);
            while files.len() < dirs.len()
                invariant
                    files@.len() <= dirs@.len(),
                    forall|i: int|
                        0 <= i < files@.len() ==> (#[trigger] files@[i])@ == path_join(
                            dirs@[i]@,
                            command@,
                        ),
                decreases dirs@.len() - files@.len(),
            {
                let at: usize = files.len();
                files.push(join(dirs[at].as_slice(), command));
            }
            proof {
                let expected = candidates(command@, Some(path@));
                assert(byte_views(dirs@).len() == dirs@.len());
                assert forall|i: int| 0 <= i < files@.len() implies byte_views(files@)[i]
                    == expected[i] by {
                    assert(byte_views(dirs@)[i] == dirs@[i]@);
                }
                assert(byte_views(files@) =~= expected);
            }
            files
        },
        None => {
            assert(byte_views(files@) =~= Seq::<Seq<u8>>::empty());
            files
        },
    }
}

/// What came of one check: its name, and why it failed, if it did.
pub struct CheckView {
    pub name: Seq<char>,
    pub failure: Option<Seq<char>>,
}

/// The line that is printed for a check.
pub open spec fn check_line(check: CheckView) -> Seq<char> {
    match check.failure {
        None => "ok   "@ + check.name,
        Some(reason) => "fail "@ + check.name + ": "@ + reason,
    }
}

/// The lines that are printed for checks.
pub open spec fn check_lines(checks: Seq<CheckView>) -> Seq<Seq<char>> {
    Seq::new(checks.len(), |i: int| check_line(checks[i]))
}

/// The failures among checks, each with the name of its check.
pub open spec fn failures_of(checks: Seq<CheckView>) -> Seq<Seq<char>>
    decreases checks.len(),
{
    if checks.len() == 0 {
        Seq::empty()
    } else {
        let before = failures_of(checks.drop_last());
        match checks.last().failure {
            None => before,
            Some(reason) => before.push(checks.last().name + ": "@ + reason),
        }
    }
}

/// Why a check failed, if it did.
pub open spec fn failure_of(result: Result<(), String>) -> Option<Seq<char>> {
    match result {
        Ok(_) => None,
        Err(reason) => Some(reason@),
    }
}

/// Notes what came of a check. Returns the line that is printed for it.
pub fn record_health_check(
    name: &str,
    result: Result<(), String>,
    failures: &mut Vec<String>,
) -> (line: String)
    ensures
        line@ == check_line(CheckView { name: name@, failure: failure_of(result) }),
        match result {
            Ok(_) => final(failures)@ == old(failures)@,
            Err(reason) => views(final(failures)@) == views(old(failures)@).push(
                name@ + ": "@ + reason@,
            ),
        },
{
    match result {
        Ok(_) => {
            let mut line: String = "ok   ".to_string();
            line.append(name);
            line
        },
        Err(reason) => {
            let mut line: String = "fail ".to_string();
            line.append(name);
            line.append(": ");
            line.append(reason.as_str());
            let mut failure: String = name.to_string();
            failure.append(": ");
            failure.append(reason.as_str());
            failures.push(failure);
            assert(views(failures@) =~= views(old(failures)@).push(name@ + ": "@ + reason@));
            line
        },
    }
}

/// Checks the configuration.
pub fn check_config(config: &Config) -> (checked: Result<(), String>)
    ensures
        exists|scheme: Option<String>|
            opt_view(scheme) == url_scheme(config.model.url@) && failure_of(checked) == (
            match #[trigger] config.verdict(scheme) {
                Ok(_) => None,
                Err(error) => Some(error.words()),
            }),
{
    let verdict: Result<(), ConfigError> = config.validate();
    let ghost scheme = choose|scheme: Option<String>|
        opt_view(scheme) == url_scheme(config.model.url@) && verdict == #[trigger] config.verdict(
            scheme,
        );
    assert(verdict == config.verdict(scheme));
    match verdict {
        Ok(_) => Ok(()),
        Err(error) => Err(error.message()),
    }
}

/// Checks a program that was found, or was not.
pub fn check_command(found: bool) -> (checked: Result<(), String>)
    ensures
        failure_of(checked) == (if found {
            None
        } else {
            Some("not found in PATH"@)
        }),
{
    if found {
        Ok(())
    } else {
        Err("not found in PATH".to_string())
    }
}

/// What is said of an overlay that is asked for and cannot be shown.
pub fn warn_status_ui_ignored_for_health(status_ui: &StatusUiConfig, has_overlay: bool) -> (warning:
    Option<&'static str>)
    ensures
        match warning {
            Some(text) => status_ui.enabled && !has_overlay && text@
                == "warning: [status_ui] enabled=true is ignored in ut health because this binary was built without the `ui` feature"@,
            None => !status_ui.enabled || has_overlay,
        },
{
    if status_ui.enabled && !has_overlay {
        Some(
            "warning: [status_ui] enabled=true is ignored in ut health because this binary was built without the `ui` feature",
        )
    } else {
        None
    }
}

/// All that is checked, in order: the configuration, each program, the
/// microphone.
pub open spec fn all_checks(
    config: Option<Seq<char>>,
    found: Seq<bool>,
    audio: Option<Seq<char>>,
) -> Seq<CheckView> {
    seq![CheckView { name: "config"@, failure: config }] + command_checks(found) + seq![
        CheckView { name: "audio"@, failure: audio },
    ]
}

/// The checks of the programs that were found, or were not.
pub open spec fn command_checks(found: Seq<bool>) -> Seq<CheckView> {
    Seq::new(
        found.len(),
        |i: int|
            CheckView {
                name: "dependency:"@ + command_names()[i],
                failure: if found[i] {
                    None
                } else {
                    Some("not found in PATH"@)
                },
            },
    )
}

/// What a health check tells: a line for each check, and whether all is well or
/// what is not.
#[derive(Debug, PartialEq, Eq)]
pub struct HealthReport {
    pub lines: Vec<String>,
    pub outcome: Result<String, String>,
}

impl HealthReport {
    /// Whether the report is that of these checks.
    pub open spec fn is_about(self, checks: Seq<CheckView>) -> bool {
        &&& views(self.lines@) == check_lines(checks)
        &&& match self.outcome {
            Ok(text) => failures_of(checks).len() == 0 && text@ == "health: ok"@,
            Err(text) => failures_of(checks).len() > 0 && text@ == "health check failed: "@
                + joined(failures_of(checks), "; "@),
        }
    }
}

proof fn lemma_one_more(
    lines: Seq<String>,
    line: String,
    checks: Seq<CheckView>,
    check: CheckView,
)
    requires
        views(lines) == check_lines(checks),
        line@ == check_line(check),
    ensures
        views(lines.push(line)) == check_lines(checks.push(check)),
        checks.push(check).drop_last() == checks,
{
    let before = views(lines);
    let after = views(lines.push(line));
    assert(before.len() == checks.len());
    assert forall|i: int| 0 <= i < after.len() implies after[i] == check_lines(
        checks.push(check),
    )[i] by {
        if i < checks.len() {
            assert(before[i] == check_lines(checks)[i]);
        }
    }
    assert(after =~= check_lines(checks.push(check)));
    assert(checks.push(check).drop_last() =~= checks);
}

/// What a health check tells, with what came of checking the configuration,
/// which of the programs were found, and what came of opening the microphone.
pub fn run_health_checks(
    config: Result<(), String>,
    found: &Vec<bool>,
    audio: Result<(), String>,
) -> (report: HealthReport)
    requires
        found@.len() == command_names().len(),
    ensures
        report.is_about(all_checks(failure_of(config), found@, failure_of(audio))),
{
    let ghost all = all_checks(failure_of(config), found@, failure_of(audio));
    let ghost mut done = Seq::<CheckView>::empty();
    let mut lines: Vec<String> = Vec::new();
    let mut failures: Vec<String> = Vec::new();
    assert(views(lines@) =~= check_lines(done));
    assert(views(failures@) =~= failures_of(done));

    let ghost check = CheckView { name: "config"@, failure: failure_of(config) };
    let line: String = record_health_check("config", config, &mut failures);
    proof {
        lemma_one_more(lines@, line, done, check);
        done = done.push(check);
    }
    lines.push(line);

    let names: Vec<&'static str> = required_commands();
    let mut next: usize = 0;
    proof {
        assert(done =~= all.take(1));
    }
    while next < names.len()
        invariant
            next <= names@.len(),
            names@.len() == found@.len() == command_names().len(),
            forall|i: int|
                0 <= i < names@.len() ==> (#[trigger] names@[i])@ == command_names()[i],
            all == all_checks(failure_of(config), found@, failure_of(audio)),
            done == all.take(next + 1),
            views(lines@) == check_lines(done),
            views(failures@) == failures_of(done),
        decreases names@.len() - next,
    {
        let mut name: String = "dependency:".to_string();
        name.append(names[next]);
        let result: Result<(), String> = check_command(found[next]);
        let ghost check = CheckView { name: name@, failure: failure_of(result) };
        let line: String = record_health_check(name.as_str(), result, &mut failures);
        proof {
            assert(check == all[next + 1]);
            lemma_one_more(lines@, line, done, check);
            done = done.push(check);
            assert(done =~= all.take(next + 2));
        }
        lines.push(line);
        next = next + 1;
    }

    let ghost check = CheckView { name: "audio"@, failure: failure_of(audio) };
    let line: String = record_health_check("audio", audio, &mut failures);
    proof {
        assert(check == all[next + 1]);
        lemma_one_more(lines@, line, done, check);
        done = done.push(check);
        assert(done =~= all);
    }
    lines.push(line);

    let outcome: Result<String, String> = if failures.len() == 0 {
        Ok("health: ok".to_string())
    } else {
        let mut text: String = "health check failed: ".to_string();
        text.append(crate::text::join(&failures, "; ").as_str());
        Err(text)
    };
    HealthReport { lines, outcome }
}

/// All is well where every check passed, and nowhere else.
pub proof fn law_health_is_every_check(report: HealthReport, checks: Seq<CheckView>)
    requires
        report.is_about(checks),
    ensures
        report.outcome is Ok <==> forall|i: int|
            0 <= i < checks.len() ==> (#[trigger] checks[i]).failure is None,
{
    lemma_failures(checks);
}

proof fn lemma_failures(checks: Seq<CheckView>)
    ensures
        failures_of(checks).len() == 0 <==> forall|i: int|
            0 <= i < checks.len() ==> (#[trigger] checks[i]).failure is None,
    decreases checks.len(),
{
    if checks.len() > 0 {
        let rest = checks.drop_last();
        lemma_failures(rest);
        if failures_of(checks).len() == 0 {
            assert forall|i: int| 0 <= i < checks.len() implies (
            #[trigger] checks[i]).failure is None by {
                if i < rest.len() {
                    assert(rest[i] == checks[i]);
                }
            }
        }
        if forall|i: int| 0 <= i < checks.len() ==> (#[trigger] checks[i]).failure is None {
            assert forall|i: int| 0 <= i < rest.len() implies (
            #[trigger] rest[i]).failure is None by {
                assert(rest[i] == checks[i]);
            }
            assert(checks[checks.len() - 1].failure is None);
        }
    }
}

/// All is well where the configuration is, every program was found and the
/// microphone works; and nowhere else. There is a line for each of them, in that
/// order, and what failed is named in what is reported, with its reason.
pub proof fn law_health_is_what_was_checked(
    config: Result<(), String>,
    found: Vec<bool>,
    audio: Result<(), String>,
    report: HealthReport,
)
    requires
        call_ensures(run_health_checks, (config, &found, audio), report),
        found@.len() == command_names().len(),
    ensures
        report.outcome is Ok <==> config is Ok && audio is Ok && forall|i: int|
            0 <= i < found@.len() ==> #[trigger] found@[i],
        report.lines@.len() == found@.len() + 2,
        config is Ok ==> "ok"@.is_prefix_of(report.lines@[0]@),
        config matches Err(why) ==> "fail"@.is_prefix_of(report.lines@[0]@) && why@.is_suffix_of(
            report.lines@[0]@,
        ) && crate::text::has_text(report.outcome->Err_0@, why@),
        audio is Ok ==> "ok"@.is_prefix_of(report.lines@.last()@),
        audio matches Err(why) ==> "fail"@.is_prefix_of(report.lines@.last()@)
            && why@.is_suffix_of(report.lines@.last()@) && crate::text::has_text(
            report.outcome->Err_0@,
            why@,
        ),
        forall|i: int|
            0 <= i < found@.len() ==> if #[trigger] found@[i] {
                &&& "ok"@.is_prefix_of(report.lines@[i + 1]@)
                &&& command_names()[i].is_suffix_of(report.lines@[i + 1]@)
            } else {
                &&& "fail"@.is_prefix_of(report.lines@[i + 1]@)
                &&& crate::text::has_text(report.lines@[i + 1]@, command_names()[i])
                &&& crate::text::has_text(report.outcome->Err_0@, command_names()[i])
            },
{
    let checks = all_checks(failure_of(config), found@, failure_of(audio));
    let n: int = found@.len() as int;
    law_health_is_every_check(report, checks);
    let lines = views(report.lines@);
    assert(lines.len() == checks.len());
    assert(checks.len() == n + 2);
    assert(checks[0].failure == failure_of(config));
    assert(checks[n + 1].failure == failure_of(audio));
    assert forall|i: int| 0 <= i < n implies checks[i + 1].failure is None == #[trigger] found@[i]
        && checks[i + 1].name == "dependency:"@ + command_names()[i] by {
        assert(checks[i + 1] == command_checks(found@)[i]);
    }
    if report.outcome is Ok {
        assert forall|i: int| 0 <= i < n implies #[trigger] found@[i] by {
            assert(checks[i + 1].failure is None);
        }
    }
    if config is Ok && audio is Ok && forall|i: int| 0 <= i < n ==> #[trigger] found@[i] {
        assert forall|i: int| 0 <= i < checks.len() implies (
        #[trigger] checks[i]).failure is None by {
            if 0 < i < n + 1 {
                assert(found@[i - 1]);
            }
        }
    }
    lemma_line(report, checks, 0);
    lemma_line(report, checks, n + 1);
    assert forall|i: int| 0 <= i < n implies if #[trigger] found@[i] {
        &&& "ok"@.is_prefix_of(report.lines@[i + 1]@)
        &&& command_names()[i].is_suffix_of(report.lines@[i + 1]@)
    } else {
        &&& "fail"@.is_prefix_of(report.lines@[i + 1]@)
        &&& crate::text::has_text(report.lines@[i + 1]@, command_names()[i])
        &&& crate::text::has_text(report.outcome->Err_0@, command_names()[i])
    } by {
        lemma_line(report, checks, i + 1);
        let name = command_names()[i];
        let line = report.lines@[i + 1]@;
        if found@[i] {
            assert(line.subrange(line.len() - name.len(), line.len() as int) =~= name);
        } else {
            let full = "dependency:"@ + name;
            lemma_inner_text(line, full, name);
            lemma_inner_text(report.outcome->Err_0@, full, name);
        }
    }
}

/// What is written of one check.
proof fn lemma_line(report: HealthReport, checks: Seq<CheckView>, at: int)
    requires
        report.is_about(checks),
        0 <= at < checks.len(),
    ensures
        report.lines@.len() == checks.len(),
        checks[at].failure is None ==> "ok"@.is_prefix_of(report.lines@[at]@)
            && report.lines@[at]@ == "ok   "@ + checks[at].name,
        checks[at].failure matches Some(why) ==> "fail"@.is_prefix_of(report.lines@[at]@)
            && why.is_suffix_of(report.lines@[at]@) && report.outcome is Err
            && crate::text::has_text(report.outcome->Err_0@, why) && crate::text::has_text(
            report.lines@[at]@,
            checks[at].name,
        ) && crate::text::has_text(report.outcome->Err_0@, checks[at].name),
{
    reveal_strlit("ok");
    reveal_strlit("ok   ");
    reveal_strlit("fail");
    reveal_strlit("fail ");
    let lines = views(report.lines@);
    assert(lines.len() == checks.len());
    assert(lines[at] == check_line(checks[at]));
    let line = report.lines@[at]@;
    let name = checks[at].name;
    match checks[at].failure {
        None => {
            assert(line.subrange(0, "ok"@.len() as int) =~= "ok"@);
        },
        Some(why) => {
            let n: int = name.len() as int;
            assert(line.subrange(0, "fail"@.len() as int) =~= "fail"@);
            assert(line.subrange(line.len() - why.len(), line.len() as int) =~= why);
            assert(line.subrange(5, 5 + n) =~= name);
            assert(crate::text::occurs_at(line, name, 5));
            lemma_reported(report, checks, at);
        },
    }
}

/// A check that failed is in the error, with its name and the reason.
proof fn lemma_reported(report: HealthReport, checks: Seq<CheckView>, at: int)
    requires
        report.is_about(checks),
        0 <= at < checks.len(),
        checks[at].failure is Some,
    ensures
        report.outcome is Err,
        crate::text::has_text(report.outcome->Err_0@, checks[at].failure->0),
        crate::text::has_text(report.outcome->Err_0@, checks[at].name),
{
    let name = checks[at].name;
    let why = checks[at].failure->0;
    let n: int = name.len() as int;
    lemma_failures(checks);
    let failure = name + ": "@ + why;
    let k = lemma_failure_is_listed(checks, at);
    let all = failures_of(checks);
    crate::text::lemma_joined(all, "; "@);
    let whole = joined(all, "; "@);
    let text = report.outcome->Err_0@;
    let head = "health check failed: "@;
    assert(crate::text::has_text(whole, all[k]));
    let j = choose|j: int| crate::text::occurs_at(whole, failure, j);
    let h: int = head.len() as int;
    assert(text.subrange(h + j, h + j + failure.len()) =~= failure);
    assert(crate::text::occurs_at(text, failure, h + j));
    let w: int = failure.len() - why.len();
    assert(failure.subrange(w, w + why.len()) =~= why);
    assert(crate::text::occurs_at(failure, why, w));
    assert(failure.subrange(0, n) =~= name);
    assert(crate::text::occurs_at(failure, name, 0));
    lemma_text_in_text(text, failure, why);
    lemma_text_in_text(text, failure, name);
}

/// What stands in a text that stands in another one stands in that.
proof fn lemma_text_in_text(text: Seq<char>, part: Seq<char>, inner: Seq<char>)
    requires
        crate::text::has_text(text, part),
        crate::text::has_text(part, inner),
    ensures
        crate::text::has_text(text, inner),
{
    let i = choose|i: int| crate::text::occurs_at(text, part, i);
    let j = choose|j: int| crate::text::occurs_at(part, inner, j);
    assert(text.subrange(i + j, i + j + inner.len()) =~= text.subrange(
        i,
        i + part.len(),
    ).subrange(j, j + inner.len()));
    assert(crate::text::occurs_at(text, inner, i + j));
}

proof fn lemma_inner_text(text: Seq<char>, full: Seq<char>, name: Seq<char>)
    requires
        crate::text::has_text(text, full),
        full == "dependency:"@ + name,
    ensures
        crate::text::has_text(text, name),
{
    let at: int = "dependency:"@.len() as int;
    assert(full.subrange(at, at + name.len()) =~= name);
    assert(crate::text::occurs_at(full, name, at));
    lemma_text_in_text(text, full, name);
}

/// A check that failed is among the failures.
proof fn lemma_failure_is_listed(checks: Seq<CheckView>, at: int) -> (place: int)
    requires
        0 <= at < checks.len(),
        checks[at].failure is Some,
    ensures
        0 <= place < failures_of(checks).len(),
        failures_of(checks)[place] == checks[at].name + ": "@ + checks[at].failure->0,
    decreases checks.len(),
{
    let rest = checks.drop_last();
    if at < rest.len() {
        assert(rest[at] == checks[at]);
        lemma_failure_is_listed(rest, at)
    } else {
        failures_of(rest).len() as int
    }
}

/// The directories of `PATH`, with a colon between two of them, make its value
/// again, and none holds a colon: so each directory is looked into, and only
/// those.
pub proof fn law_path_is_its_directories(path: &[u8], dirs: Vec<Vec<u8>>)
    requires
        call_ensures(split_path, (path,), dirs),
    ensures
        dirs@.len() > 0,
        with_colons(byte_views(dirs@)) == path@,
        forall|i: int| 0 <= i < dirs@.len() ==> !(#[trigger] dirs@[i])@.contains(0x3a),
{
    lemma_path_dirs(path@);
    assert(byte_views(dirs@).len() == dirs@.len());
    assert forall|i: int| 0 <= i < dirs@.len() implies !(#[trigger] dirs@[i])@.contains(0x3a) by {
        assert(byte_views(dirs@)[i] == dirs@[i]@);
    }
}

/// Paths one behind the other, with a colon between two of them.
pub open spec fn with_colons(dirs: Seq<Seq<u8>>) -> Seq<u8>
    decreases dirs.len(),
{
    if dirs.len() == 0 {
        Seq::empty()
    } else if dirs.len() == 1 {
        dirs[0]
    } else {
        with_colons(dirs.drop_last()).push(0x3a) + dirs.last()
    }
}

proof fn lemma_path_dirs(path: Seq<u8>)
    ensures
        path_dirs(path).len() > 0,
        with_colons(path_dirs(path)) == path,
        forall|i: int|
            0 <= i < path_dirs(path).len() ==> !(#[trigger] path_dirs(path)[i]).contains(0x3a),
    decreases path.len(),
{
    let all = path_dirs(path);
    if path.len() > 0 {
        let rest = path.drop_last();
        lemma_path_dirs(rest);
        let before = path_dirs(rest);
        if path.last() == PATH_SEPARATOR {
            assert(all.drop_last() =~= before);
            assert(with_colons(all) =~= path);
            assert forall|i: int| 0 <= i < all.len() implies !(#[trigger] all[i]).contains(
                0x3a,
            ) by {
                if i < before.len() {
                    assert(all[i] == before[i]);
                }
            }
        } else {
            assert(all.drop_last() =~= before.drop_last());
            assert(all.last() == before.last().push(path.last()));
            assert(with_colons(all) =~= with_colons(before).push(path.last()));
            assert(with_colons(all) =~= path);
            assert forall|i: int| 0 <= i < all.len() implies !(#[trigger] all[i]).contains(
                0x3a,
            ) by {
                if i < before.len() - 1 {
                    assert(all[i] == before[i]);
                } else {
                    let last = before[before.len() - 1];
                    assert(all[i] == last.push(path.last()));
                    assert forall|j: int| 0 <= j < all[i].len() implies all[i][j] != 0x3a by {
                        if j < last.len() {
                            assert(last.contains(last[j]));
                        }
                    }
                }
            }
        }
    }
}

/// A program is looked for under its name in each directory of `PATH`, in order;
/// one whose name is a path is looked for there alone, and without `PATH` any
/// other one is looked for nowhere.
pub proof fn law_program_is_looked_for_everywhere(
    command: &[u8],
    path: Option<&[u8]>,
    files: Vec<Vec<u8>>,
    dirs: Vec<Vec<u8>>,
)
    requires
        call_ensures(command_candidates, (command, path), files),
        path matches Some(value) ==> call_ensures(split_path, (value,), dirs),
    ensures
        command@.contains(0x2f) ==> files@.len() == 1 && files@[0]@ == command@,
        !command@.contains(0x2f) && path is None ==> files@.len() == 0,
        !command@.contains(0x2f) && path is Some ==> files@.len() == dirs@.len() && forall|i: int|
            0 <= i < files@.len() ==> (#[trigger] files@[i])@ == path_join(dirs@[i]@, command@),
{
    let all = byte_views(files@);
    assert(all.len() == files@.len());
    if command@.contains(0x2f) {
        assert(all[0] == files@[0]@);
    } else if path is Some {
        assert(byte_views(dirs@).len() == dirs@.len());
        assert forall|i: int| 0 <= i < files@.len() implies (#[trigger] files@[i])@ == path_join(
            dirs@[i]@,
            command@,
        ) by {
            assert(all[i] == files@[i]@);
            assert(byte_views(dirs@)[i] == dirs@[i]@);
        }
    }
}

/// A check that passed is no failure, and one that did not is one more, behind
/// those before it, with its name and its reason.
pub proof fn law_failed_check_is_noted(
    name: &str,
    result: Result<(), String>,
    failures: &mut Vec<String>,
    line: String,
)
    requires
        call_ensures(record_health_check, (name, result, failures), line),
    ensures
        result is Ok ==> final(failures)@ == old(failures)@ && line@ == "ok   "@ + name@,
        result matches Err(why) ==> views(final(failures)@) == views(old(failures)@).push(
            name@ + ": "@ + why@,
        ) && line@ == "fail "@ + name@ + ": "@ + why@,
{
}

/// A program that was not found fails its check, and an overlay that is asked for
/// is warned of only where there is none.
pub proof fn law_missing_program_fails(
    found: bool,
    checked: Result<(), String>,
    status_ui: StatusUiConfig,
    has_overlay: bool,
    warning: Option<&'static str>,
)
    requires
        call_ensures(check_command, (found,), checked),
        call_ensures(warn_status_ui_ignored_for_health, (&status_ui, has_overlay), warning),
    ensures
        checked is Ok <==> found,
        warning is Some <==> status_ui.enabled && !has_overlay,
{
}

/// The check of the configuration passes where the configuration does, and else
/// says what is wrong with it.
pub proof fn law_config_check_is_the_validation(
    config: Config,
    checked: Result<(), String>,
)
    requires
        call_ensures(check_config, (&config,), checked),
    ensures
        checked is Ok ==> config.recording.max_seconds > 0 && config.model.timeout_seconds > 0
            && config.status_ui.width > 0 && config.status_ui.height > 0 && (url_scheme(
            config.model.url@,
        ) == Some("http"@) || url_scheme(config.model.url@) == Some("https"@)),
        config.recording.max_seconds == 0 ==> (checked matches Err(why) && why@
            == ConfigError::ZeroMaxSeconds.words()),
{
    let scheme = choose|scheme: Option<String>|
        opt_view(scheme) == url_scheme(config.model.url@) && failure_of(checked) == (
        match #[trigger] config.verdict(scheme) {
            Ok(_) => None,
            Err(error) => Some(error.words()),
        });
    assert(failure_of(checked) == (match config.verdict(scheme) {
        Ok(_) => None,
        Err(error) => Some(error.words()),
    }));
    crate::config::law_valid_config(config, scheme);
}

/// Each program that a session runs is required: five of them.
pub proof fn law_programs_are_required(names: Vec<&'static str>)
    requires
        call_ensures(required_commands, (), names),
    ensures
        names@.len() == 5,
        exists|i: int| 0 <= i < 5 && (#[trigger] names@[i])@ == "swaymsg"@,
        exists|i: int| 0 <= i < 5 && (#[trigger] names@[i])@ == "wl-copy"@,
        exists|i: int| 0 <= i < 5 && (#[trigger] names@[i])@ == "wl-paste"@,
        exists|i: int| 0 <= i < 5 && (#[trigger] names@[i])@ == "wtype"@,
        exists|i: int| 0 <= i < 5 && (#[trigger] names@[i])@ == "notify-send"@,
{
    assert(names@[0]@ == "swaymsg"@);
    assert(names@[1]@ == "wl-copy"@);
    assert(names@[2]@ == "wl-paste"@);
    assert(names@[3]@ == "wtype"@);
    assert(names@[4]@ == "notify-send"@);
}

/// The line for the configuration names it, and so does the one for the microphone.
pub proof fn law_lines_name_what_was_checked(
    config: Result<(), String>,
    found: Vec<bool>,
    audio: Result<(), String>,
    report: HealthReport,
)
    requires
        call_ensures(run_health_checks, (config, &found, audio), report),
        found@.len() == command_names().len(),
    ensures
        report.lines@.len() > 1,
        crate::text::has_text(report.lines@[0]@, "config"@),
        crate::text::has_text(report.lines@.last()@, "audio"@),
        config is Err ==> crate::text::has_text(report.outcome->Err_0@, "config"@),
        audio is Err ==> crate::text::has_text(report.outcome->Err_0@, "audio"@),
{
    let checks = all_checks(failure_of(config), found@, failure_of(audio));
    let n: int = found@.len() as int;
    law_health_is_every_check(report, checks);
    assert(checks.len() == n + 2);
    assert(checks[0].name == "config"@ && checks[0].failure == failure_of(config));
    assert(checks[n + 1].name == "audio"@ && checks[n + 1].failure == failure_of(audio));
    lemma_line(report, checks, 0);
    lemma_line(report, checks, n + 1);
    let start: int = "ok   "@.len() as int;
    if config is Ok {
        let line = report.lines@[0]@;
        assert(line.subrange(start, line.len() as int) =~= "config"@);
        assert(crate::text::occurs_at(line, "config"@, start));
    }
    if audio is Ok {
        let line = report.lines@.last()@;
        assert(line.subrange(start, line.len() as int) =~= "audio"@);
        assert(crate::text::occurs_at(line, "audio"@, start));
    }
}

} // verus!
