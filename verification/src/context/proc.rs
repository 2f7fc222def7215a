//! What `/proc` adds to a context.

use crate::context::AppContext;
use crate::text::{decimal, decode_lossy, lossy_text, quote, quoted, to_decimal};
use vstd::prelude::*;

verus! {

/// Reading a symbolic link: its target, nothing where it does not exist, or
/// why it could not be read.
pub type LinkTarget = Result<Option<String>, String>;

/// The link under `/proc` that a process has under a name.
pub open spec fn proc_link(pid: u32, name: Seq<char>) -> Seq<char> {
    "/proc/"@ + decimal(pid as nat) + "/"@ + name
}

/// The path of a link of a process: `/proc/<pid>/<name>`.
pub fn link_path(pid: u32, name: &str) -> (path: String)
    ensures
        path@ == proc_link(pid, name@),
{
    let mut path: String = "/proc/".to_string();
    path.append(to_decimal(pid as u64).as_str());
    path.append("/");
    path.append(name);
    path
}

/// What came of reading a symbolic link.
#[derive(Debug, Clone, PartialEq, Eq)]
pub enum LinkRead {
    Target(Vec<u8>),
    NotFound,
    Failed,
}

/// The target of a link as text; a link that does not exist has none, and one
/// that could not be read is an error.
pub fn read_link(path: &str, read: LinkRead) -> (target: LinkTarget)
    ensures
        match read {
            LinkRead::Target(bytes) => target matches Ok(Some(text)) && text@ == lossy_text(bytes@),
            LinkRead::NotFound => target == Ok::<Option<String>, String>(None),
            LinkRead::Failed => target matches Err(error) && error@ == "failed to read "@ + quoted(
                path@,
            ),
        },
{
    match read {
        LinkRead::Target(bytes) => Ok(Some(decode_lossy(bytes.as_slice()))),
        LinkRead::NotFound => Ok(None),
        LinkRead::Failed => {
            let mut error: String = "failed to read ".to_string();
            error.append(quote(path).as_str());
            Err(error)
        },
    }
}

/// The context with the executable and the working directory of its process.
///
/// `exe` and `cwd` are what reading the two links of the process gave. A
/// context without a process is left as it is; otherwise a link that could not
/// be read is an error, that of `exe` first.
pub fn enrich_context(context: AppContext, exe: LinkTarget, cwd: LinkTarget) -> (enriched: Result<
    AppContext,
    String,
>)
    ensures
        enriched == enriched_context(context, exe, cwd),
{
    if context.pid.is_none() {
        return Ok(context);
    }
    match exe {
        Err(reason) => Err(reason),
        Ok(exe) => match cwd {
            Err(reason) => Err(reason),
            Ok(cwd) => Ok(AppContext { exe, cwd, ..context }),
        },
    }
}

/// What [`enrich_context`] gives.
pub open spec fn enriched_context(
    context: AppContext,
    exe: LinkTarget,
    cwd: LinkTarget,
) -> Result<AppContext, String> {
    if context.pid is None {
        Ok(context)
    } else {
        match (exe, cwd) {
            (Err(reason), _) => Err(reason),
            (Ok(_), Err(reason)) => Err(reason),
            (Ok(exe), Ok(cwd)) => Ok(AppContext { exe, cwd, ..context }),
        }
    }
}

/// What `/proc` says is added only to a context that names a process, and only
/// where both links could be read; all else stays. A link that could not be read
/// is the error.
pub proof fn law_context_is_only_added_to(
    context: AppContext,
    exe: LinkTarget,
    cwd: LinkTarget,
    enriched: Result<AppContext, String>,
)
    requires
        call_ensures(enrich_context, (context, exe, cwd), enriched),
    ensures
        context.pid is None ==> enriched == Ok::<AppContext, String>(context),
        enriched matches Ok(after) ==> after.app_id == context.app_id && after.class
            == context.class && after.instance == context.instance && after.title == context.title
            && after.pid == context.pid && after.container_id == context.container_id
            && after.compositor == context.compositor,
        context.pid is Some && exe is Ok && cwd is Ok ==> (enriched matches Ok(after) && after.exe
            == exe->Ok_0 && after.cwd == cwd->Ok_0),
        context.pid is Some ==> (exe matches Err(why) ==> enriched == Err::<AppContext, String>(
            why,
        )),
        context.pid is Some && exe is Ok ==> (cwd matches Err(why) ==> enriched == Err::<
            AppContext,
            String,
        >(why)),
{
}

/// A link is read as its target; one that is not there has none, and only one that
/// could not be read is an error.
pub proof fn law_link_is_read_as_its_target(path: &str, read: LinkRead, target: LinkTarget)
    requires
        call_ensures(read_link, (path, read), target),
    ensures
        read matches LinkRead::Target(bytes) ==> (target matches Ok(Some(text)) && text@
            == lossy_text(bytes@)),
        read is NotFound <==> (target matches Ok(found) && found is None),
        read is Failed <==> target is Err,
{
}

/// The link of a process lies right below the directory of its number, which
/// lies below `/proc`.
pub proof fn law_link_lies_below_the_process(pid: u32, name: &str, path: String)
    requires
        call_ensures(link_path, (pid, name), path),
    ensures
        "/proc/"@.is_prefix_of(path@),
        name@.is_suffix_of(path@),
        path@ == "/proc/"@ + decimal(pid as nat) + "/"@ + name@,
{
    let text = path@;
    assert(text.subrange(0, "/proc/"@.len() as int) =~= "/proc/"@);
    assert(text.subrange(text.len() - name@.len(), text.len() as int) =~= name@);
}

} // verus!
