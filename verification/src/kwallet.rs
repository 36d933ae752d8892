//! Passwords in KWallet.
//!
//! Every request is a conversation of single calls. The functions here say
//! which call comes next and what the request ends with; a caller performs the
//! calls and hands back the replies.
use vstd::prelude::*;
use crate::text::{decimal_int, i64_text, join2, join3, join_texts, joined_by, texts};

verus! {

pub const APPLICATION: &'static str = "weechat-rs";

pub const FOLDER: &'static str = "weechat-rs";

/// What is asked of the wallet.
#[derive(Debug, Clone, Copy, PartialEq, Eq, Structural)]
pub enum WalletTask {
    Load,
    Save,
    Delete,
}

/// One call to the wallet.
#[derive(Debug, Clone, Copy, PartialEq, Eq, Structural)]
pub enum WalletCall {
    Open,
    HasFolder(i32),
    CreateFolder(i32),
    HasEntry(i32),
    ReadPassword(i32),
    WritePassword(i32),
    RemoveEntry(i32),
}

/// What a call came back with.
#[derive(Debug)]
pub enum WalletReply {
    Number(i32),
    Flag(bool),
    Text(String),
    Failed(String),
}

/// How a request goes on.
#[derive(Debug)]
pub enum WalletStep {
    Call(WalletCall),
    /// The request is over. What was loaded, where something was, or why it
    /// failed.
    Done(Result<Option<String>, String>),
}

pub ghost enum StepView {
    Call(WalletCall),
    Done(Result<Option<Seq<char>>, Seq<char>>),
}

impl View for WalletStep {
    type V = StepView;

    open spec fn view(&self) -> StepView {
        match self {
            WalletStep::Call(call) => StepView::Call(*call),
            WalletStep::Done(Ok(Some(text))) => StepView::Done(Ok(Some(text@))),
            WalletStep::Done(Ok(None)) => StepView::Done(Ok(None)),
            WalletStep::Done(Err(error)) => StepView::Done(Err(error@)),
        }
    }
}

/// Whether a reply has the type that a call returns.
pub open spec fn reply_fits(call: WalletCall, reply: WalletReply) -> bool {
    match reply {
        WalletReply::Failed(_) => true,
        WalletReply::Number(_) => call is Open || call is WritePassword || call is RemoveEntry,
        WalletReply::Flag(_) => call is HasFolder || call is CreateFolder || call is HasEntry,
        WalletReply::Text(_) => call is ReadPassword,
    }
}

/// The call that a task makes once the wallet is open.
pub open spec fn first_call(task: WalletTask, handle: i32) -> WalletCall {
    match task {
        WalletTask::Save => WalletCall::HasFolder(handle),
        WalletTask::Load | WalletTask::Delete => WalletCall::HasEntry(handle),
    }
}

/// How a task goes on after a reply.
pub open spec fn step(task: WalletTask, call: WalletCall, reply: WalletReply) -> StepView {
    match (call, reply) {
        (_, WalletReply::Failed(error)) => StepView::Done(Err(error@)),
        (WalletCall::Open, WalletReply::Number(handle)) => if handle < 0 {
            StepView::Done(Err("KWallet open returned "@ + decimal_int(handle as int)))
        } else {
            StepView::Call(first_call(task, handle))
        },
        (WalletCall::HasFolder(handle), WalletReply::Flag(there)) => if there {
            StepView::Call(WalletCall::WritePassword(handle))
        } else {
            StepView::Call(WalletCall::CreateFolder(handle))
        },
        (WalletCall::CreateFolder(handle), WalletReply::Flag(made)) => if made {
            StepView::Call(WalletCall::WritePassword(handle))
        } else {
            StepView::Done(Err("KWallet could not create the weechat-rs folder"@))
        },
        (WalletCall::HasEntry(handle), WalletReply::Flag(there)) => if !there {
            StepView::Done(Ok(None))
        } else if task is Load {
            StepView::Call(WalletCall::ReadPassword(handle))
        } else {
            StepView::Call(WalletCall::RemoveEntry(handle))
        },
        (WalletCall::ReadPassword(_), WalletReply::Text(password)) => StepView::Done(
            Ok(Some(password@)),
        ),
        (WalletCall::WritePassword(_), WalletReply::Number(result)) => if result != 0 {
            StepView::Done(Err("KWallet writePassword returned "@ + decimal_int(result as int)))
        } else {
            StepView::Done(Ok(None))
        },
        (WalletCall::RemoveEntry(_), WalletReply::Number(result)) => if result != 0 {
            StepView::Done(Err("KWallet removeEntry returned "@ + decimal_int(result as int)))
        } else {
            StepView::Done(Ok(None))
        },
        _ => StepView::Done(Ok(None)),
    }
}

fn failed_with(what: &str, code: i32) -> (step: WalletStep)
    ensures
        step@ == StepView::Done(Err(what@ + decimal_int(code as int))),
{
    let number = i64_text(code as i64);
    WalletStep::Done(Err(join2(what, number.as_str())))
}

/// The call that every request begins with.
pub fn begin() -> (call: WalletCall)
    ensures
        call == WalletCall::Open,
{
    WalletCall::Open
}

/// How a request goes on after the reply to its last call.
pub fn advance(task: WalletTask, call: WalletCall, reply: WalletReply) -> (next: WalletStep)
    requires
        reply_fits(call, reply),
    ensures
        next@ == step(task, call, reply),
{
    match reply {
        WalletReply::Failed(error) => WalletStep::Done(Err(error)),
        WalletReply::Text(password) => WalletStep::Done(Ok(Some(password))),
        WalletReply::Number(number) => match call {
            WalletCall::Open => if number < 0 {
                failed_with("KWallet open returned ", number)
            } else {
                match task {
                    WalletTask::Save => WalletStep::Call(WalletCall::HasFolder(number)),
                    WalletTask::Load | WalletTask::Delete => WalletStep::Call(
                        WalletCall::HasEntry(number),
                    ),
                }
            },
            WalletCall::WritePassword(_) => if number != 0 {
                failed_with("KWallet writePassword returned ", number)
            } else {
                WalletStep::Done(Ok(None))
            },
            _ => if number != 0 {
                failed_with("KWallet removeEntry returned ", number)
            } else {
                WalletStep::Done(Ok(None))
            },
        },
        WalletReply::Flag(flag) => match call {
            WalletCall::HasFolder(handle) => if flag {
                WalletStep::Call(WalletCall::WritePassword(handle))
            } else {
                WalletStep::Call(WalletCall::CreateFolder(handle))
            },
            WalletCall::CreateFolder(handle) => if flag {
                WalletStep::Call(WalletCall::WritePassword(handle))
            } else {
                WalletStep::Done(Err("KWallet could not create the weechat-rs folder".to_owned()))
            },
            WalletCall::HasEntry(handle) => if !flag {
                WalletStep::Done(Ok(None))
            } else {
                match task {
                    WalletTask::Load => WalletStep::Call(WalletCall::ReadPassword(handle)),
                    _ => WalletStep::Call(WalletCall::RemoveEntry(handle)),
                }
            },
            _ => WalletStep::Done(Ok(None)),
        },
    }
}

/// A load ends without a password, and without an error, only where the wallet
/// said that there is no entry.
pub proof fn load_is_empty_only_without_an_entry(call: WalletCall, reply: WalletReply)
    requires
        reply_fits(call, reply),
        call is Open || call is HasEntry || call is ReadPassword,
    ensures
        step(WalletTask::Load, call, reply) == StepView::Done(Ok(None)) <==> call is HasEntry
            && reply == WalletReply::Flag(false),
{
}

/// A failed call, a closed wallet and a refused write each end a request with
/// an error.
pub proof fn failures_are_reported(task: WalletTask, call: WalletCall, reply: WalletReply)
    requires
        reply_fits(call, reply),
        reply is Failed || call is Open && reply->Number_0 < 0 || (call is WritePassword
            || call is RemoveEntry) && reply->Number_0 != 0 || call is CreateFolder
            && !reply->Flag_0,
    ensures
        step(task, call, reply) is Done,
        step(task, call, reply)->Done_0 is Err,
{
}

/// How far a request has come: every call leads to a later one or to the end.
pub open spec fn stage(call: WalletCall) -> int {
    match call {
        WalletCall::Open => 0,
        WalletCall::HasFolder(_) => 1,
        WalletCall::CreateFolder(_) => 2,
        WalletCall::HasEntry(_) => 1,
        WalletCall::ReadPassword(_) => 3,
        WalletCall::WritePassword(_) => 3,
        WalletCall::RemoveEntry(_) => 3,
    }
}

/// Every request ends: each call leads to a later one or to the end.
pub proof fn requests_end(task: WalletTask, call: WalletCall, reply: WalletReply)
    requires
        reply_fits(call, reply),
    ensures
        step(task, call, reply) is Call ==> stage(step(task, call, reply)->Call_0) > stage(call),
        stage(call) == 3 ==> step(task, call, reply) is Done,
{
}

// ---------------------------------------------------------------------------
// Finding the wallet service
// ---------------------------------------------------------------------------

/// How many wallet services are known.
pub const SERVICE_COUNT: usize = 2;

pub open spec fn service_name(index: int) -> Seq<char> {
    if index == 0 {
        "org.kde.kwalletd6"@
    } else {
        "org.kde.kwalletd5"@
    }
}

/// The bus name of a wallet service.
pub fn service(index: usize) -> (name: &'static str)
    requires
        index < SERVICE_COUNT,
    ensures
        name@ == service_name(index as int),
{
    if index == 0 {
        "org.kde.kwalletd6"
    } else {
        "org.kde.kwalletd5"
    }
}

/// The object path of a wallet service.
pub fn service_path(index: usize) -> (path: &'static str)
    requires
        index < SERVICE_COUNT,
    ensures
        path@ == (if index == 0 {
            "/modules/kwalletd6"@
        } else {
            "/modules/kwalletd5"@
        }),
{
    if index == 0 {
        "/modules/kwalletd6"
    } else {
        "/modules/kwalletd5"
    }
}

/// The complaint about one service.
pub open spec fn service_complaint(index: int, error: Seq<char>) -> Seq<char> {
    service_name(index) + ": "@ + error
}

/// How the search for a service goes on.
#[derive(Debug)]
pub enum ServiceStep {
    /// Ask the service with this index next.
    Ask(usize),
    /// No service answered.
    Unavailable(String),
}

/// Notes that the service with this index failed, and says how the search
/// goes on.
pub fn service_failed(index: usize, error: &str, errors: &mut Vec<String>) -> (next: ServiceStep)
    requires
        index < SERVICE_COUNT,
    ensures
        texts(final(errors)@) == texts(old(errors)@).push(
            service_complaint(index as int, error@),
        ),
        match next {
            ServiceStep::Ask(i) => i == index + 1 && i < SERVICE_COUNT,
            ServiceStep::Unavailable(text) => index + 1 == SERVICE_COUNT && text@
                == "KWallet is unavailable ("@ + joined_by(texts(final(errors)@), "; "@) + ")"@,
        },
{
    let ghost before = errors@;
    errors.push(join3(service(index), ": ", error));
    assert(texts(errors@) =~= texts(before).push(service_complaint(index as int, error@)));
    if index + 1 < SERVICE_COUNT {
        return ServiceStep::Ask(index + 1);
    }
    let all = join_texts(&*errors, "; ");
    let text = join3("KWallet is unavailable (", all.as_str(), ")");
    ServiceStep::Unavailable(text)
}

} // verus!
