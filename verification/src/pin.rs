//! PIN entry: the retry policy around the token login, and the text of the
//! OS dialogs. The host owns PIN entry; the page never sees the secret.

use vstd::prelude::*;
use crate::pkcs11::LoginError;
use crate::text::push_str;

verus! {

/// Why no PIN was obtained.
#[derive(Debug, Clone)]
pub enum PinError {
    /// The user dismissed the dialog.
    Cancelled,
    /// The token rejected the PIN on the last allowed attempt.
    Incorrect,
    /// The token's PIN is locked.
    Locked,
    /// No supported PIN dialog is available.
    NoDialog,
    /// The dialog or the login failed otherwise, with the reason.
    Other(String),
}

/// The text shown for a PIN error.
pub open spec fn pin_error_text(e: PinError) -> Seq<char> {
    match e {
        PinError::Cancelled => "user cancelled the PIN prompt"@,
        PinError::Incorrect => "incorrect DSC PIN after maximum attempts"@,
        PinError::Locked => "DSC token PIN is locked"@,
        PinError::NoDialog => "no supported PIN dialog available"@,
        PinError::Other(m) => "dialog failed: "@ + m@,
    }
}

impl PinError {
    /// The error's message, as shown to the user.
    pub fn message(&self) -> (s: String)
        ensures
            s@ == pin_error_text(*self),
    {
        match self {
            PinError::Cancelled => String::from_str("user cancelled the PIN prompt"),
            PinError::Incorrect => String::from_str("incorrect DSC PIN after maximum attempts"),
            PinError::Locked => String::from_str("DSC token PIN is locked"),
            PinError::NoDialog => String::from_str("no supported PIN dialog available"),
            PinError::Other(m) => {
                let mut s = String::from_str("dialog failed: ");
                push_str(&mut s, m.as_str());
                s
            },
        }
    }
}

/// Shown in the dialog when the previous PIN was rejected.
pub const INCORRECT_PIN_RETRY_MESSAGE: &'static str = "Incorrect PIN. Please try again.";

/// What the PIN flow asks for next.
#[derive(Debug)]
pub enum PinAction {
    /// Show the PIN dialog, with the message about the previous attempt, if any.
    Prompt { retry_message: Option<&'static str> },
    /// Try to log in to the token with this PIN.
    Verify(String),
    /// The flow is over: the verified PIN, or why there is none.
    Finish(Result<String, PinError>),
}

/// The retry policy: the dialog is shown at most `attempts` times, and a PIN
/// the token rejects is asked for again until then.
#[derive(Debug)]
pub struct PinFlow {
    attempts: u32,
    prompts: u32,
}

impl PinFlow {
    /// How many times the dialog may be shown.
    pub closed spec fn attempts(self) -> nat {
        self.attempts as nat
    }

    /// How many times the dialog has been shown.
    pub closed spec fn prompts(self) -> nat {
        self.prompts as nat
    }

    /// The dialog has been shown at least once and at most `attempts` times.
    pub open spec fn wf(self) -> bool {
        1 <= self.prompts() <= self.attempts()
    }

    /// Starts the flow: at least one attempt, and the first dialog has no message.
    pub fn start(max_attempts: u32) -> (r: (PinFlow, PinAction))
        ensures
            r.0.wf(),
            r.0.attempts() == if max_attempts == 0 { 1 } else { max_attempts as nat },
            r.0.prompts() == 1,
            r.1 matches PinAction::Prompt { retry_message: None },
    {
        let attempts = if max_attempts == 0 { 1 } else { max_attempts };
        (PinFlow { attempts, prompts: 1 }, PinAction::Prompt { retry_message: None })
    }

    /// The dialog answered: a PIN goes to the token; a dialog failure ends the flow.
    pub fn entered(&mut self, answer: Result<String, PinError>) -> (a: PinAction)
        requires
            old(self).wf(),
        ensures
            *final(self) == *old(self),
            answer matches Ok(pin) ==> a == PinAction::Verify(pin),
            answer matches Err(e) ==> a == PinAction::Finish(Err::<String, PinError>(e)),
    {
        match answer {
            Ok(pin) => PinAction::Verify(pin),
            Err(e) => PinAction::Finish(Err(e)),
        }
    }

    /// The token checked `pin`: accepted, it is the result; rejected, the dialog
    /// is shown again while attempts remain; locked or failed, the flow ends.
    pub fn checked(&mut self, pin: String, login: Result<(), LoginError>) -> (a: PinAction)
        requires
            old(self).wf(),
        ensures
            final(self).wf(),
            final(self).attempts() == old(self).attempts(),
            a matches PinAction::Prompt { .. } ==> final(self).prompts() == old(self).prompts() + 1,
            !(a is Prompt) ==> final(self).prompts() == old(self).prompts(),
            login is Ok ==> a == PinAction::Finish(Ok::<String, PinError>(pin)),
            login matches Err(LoginError::Incorrect) ==> if old(self).prompts() < old(self).attempts() {
                a == PinAction::Prompt { retry_message: Some(INCORRECT_PIN_RETRY_MESSAGE) }
            } else {
                a == PinAction::Finish(Err::<String, PinError>(PinError::Incorrect))
            },
            login matches Err(LoginError::Locked) ==> a == PinAction::Finish(Err::<String, PinError>(PinError::Locked)),
            login matches Err(LoginError::Other(m)) ==> a == PinAction::Finish(Err::<String, PinError>(PinError::Other(m))),
    {
        match login {
            Ok(()) => PinAction::Finish(Ok(pin)),
            Err(LoginError::Incorrect) => {
                if self.prompts < self.attempts {
                    self.prompts = self.prompts + 1;
                    PinAction::Prompt { retry_message: Some(INCORRECT_PIN_RETRY_MESSAGE) }
                } else {
                    PinAction::Finish(Err(PinError::Incorrect))
                }
            },
            Err(LoginError::Locked) => PinAction::Finish(Err(PinError::Locked)),
            Err(LoginError::Other(m)) => PinAction::Finish(Err(PinError::Other(m))),
        }
    }
}

/// Which step of the flow an action is: a measure that, with the dialogs
/// left, falls at every step.
pub open spec fn action_rank(a: PinAction) -> nat {
    match a {
        PinAction::Prompt { .. } => 2,
        PinAction::Verify(_) => 1,
        PinAction::Finish(_) => 0,
    }
}

/// How many dialogs `max_attempts` allows: at least one.
pub open spec fn pin_attempts(max_attempts: u32) -> nat {
    if max_attempts == 0 {
        1
    } else {
        max_attempts as nat
    }
}

/// The message the dialog shows on attempt `k` (from 0): none the first time,
/// the retry message after a rejected PIN.
pub open spec fn attempt_message(k: int) -> Option<&'static str> {
    if k == 0 {
        None
    } else {
        Some(INCORRECT_PIN_RETRY_MESSAGE)
    }
}

/// One attempt of `PinFlow`'s policy, the `k`-th (from 0) of at most `attempts`:
/// the dialog's `answer` and, for a PIN, the token's `login`. `None` when the
/// dialog is shown again; else the outcome.
pub open spec fn pin_step(attempts: nat, k: int, answer: Result<String, PinError>, login: Result<(), LoginError>) -> Option<
    Result<String, PinError>,
> {
    match answer {
        Err(e) => Some(Err(e)),
        Ok(pin) => match login {
            Ok(()) => Some(Ok(pin)),
            Err(LoginError::Incorrect) => if k + 1 < attempts {
                None
            } else {
                Some(Err(PinError::Incorrect))
            },
            Err(LoginError::Locked) => Some(Err(PinError::Locked)),
            Err(LoginError::Other(m)) => Some(Err(PinError::Other(m))),
        },
    }
}

/// `prompt` was called for attempt `k` with the label `label` and that
/// attempt's message, and gave `answer`.
pub open spec fn dialog_called<P>(prompt: P, label: Seq<char>, k: int, answer: Result<String, PinError>) -> bool where
    P: Fn(&str, Option<&'static str>) -> Result<String, PinError>,
{
    exists|l: &str| l@ == label && #[trigger] call_ensures(prompt, (l, attempt_message(k)), answer)
}

/// `verify` was called with the PIN `pin` and gave `login`.
pub open spec fn login_called<V>(verify: V, pin: Seq<char>, login: Result<(), LoginError>) -> bool where
    V: Fn(&str) -> Result<(), LoginError>,
{
    exists|p: &str| p@ == pin && #[trigger] call_ensures(verify, (p,), login)
}

/// A PIN the dialog gave went to `verify`, which gave `login`.
pub open spec fn pin_logged<V>(verify: V, answer: Result<String, PinError>, login: Result<(), LoginError>) -> bool where
    V: Fn(&str) -> Result<(), LoginError>,
{
    match answer {
        Ok(pin) => login_called(verify, pin@, login),
        Err(_) => true,
    }
}

/// The PIN flow ran as `answers` (one per dialog shown) and `logins` (the
/// token's answer to each PIN entered): every dialog had `label` and its
/// attempt's message, every PIN entered went to `verify`, every attempt but the
/// last asked again, at most `attempts` dialogs were shown, and `r` is the
/// outcome of the last attempt.
pub open spec fn pin_trace<P, V>(
    prompt: P,
    verify: V,
    label: Seq<char>,
    attempts: nat,
    answers: Seq<Result<String, PinError>>,
    logins: Seq<Result<(), LoginError>>,
    r: Result<String, PinError>,
) -> bool where
    P: Fn(&str, Option<&'static str>) -> Result<String, PinError>,
    V: Fn(&str) -> Result<(), LoginError>,
{
    &&& 1 <= answers.len() <= attempts
    &&& logins.len() == answers.len()
    &&& forall|k: int| 0 <= k < answers.len() ==> #[trigger] dialog_called(prompt, label, k, answers[k])
    &&& forall|k: int| 0 <= k < answers.len() ==> #[trigger] pin_logged(verify, answers[k], logins[k])
    &&& forall|k: int| 0 <= k < answers.len() - 1 ==> #[trigger] pin_step(attempts, k, answers[k], logins[k]) is None
    &&& pin_step(attempts, answers.len() - 1, answers.last(), logins.last()) == Some(r)
}

/// Where the loop stands: the attempts so far are `answers` and `logins`, all
/// of which asked again, except that the last PIN may still await its login.
spec fn pin_loop_state<P, V>(
    prompt: P,
    verify: V,
    label: Seq<char>,
    flow: PinFlow,
    action: PinAction,
    answers: Seq<Result<String, PinError>>,
    logins: Seq<Result<(), LoginError>>,
) -> bool where
    P: Fn(&str, Option<&'static str>) -> Result<String, PinError>,
    V: Fn(&str) -> Result<(), LoginError>,
{
    &&& logins.len() == answers.len()
    &&& forall|k: int| 0 <= k < answers.len() ==> #[trigger] dialog_called(prompt, label, k, answers[k])
    &&& match action {
        PinAction::Prompt { retry_message: m } => {
            &&& answers.len() + 1 == flow.prompts()
            &&& m == attempt_message(answers.len() as int)
            &&& forall|k: int| 0 <= k < answers.len() ==> #[trigger] pin_logged(verify, answers[k], logins[k])
            &&& forall|k: int| 0 <= k < answers.len() ==> #[trigger] pin_step(flow.attempts(), k, answers[k], logins[k]) is None
        },
        PinAction::Verify(pin) => {
            &&& answers.len() == flow.prompts()
            &&& answers.last() == Ok::<String, PinError>(pin)
            &&& forall|k: int| 0 <= k < answers.len() - 1 ==> #[trigger] pin_logged(verify, answers[k], logins[k])
            &&& forall|k: int|
                0 <= k < answers.len() - 1 ==> #[trigger] pin_step(flow.attempts(), k, answers[k], logins[k]) is None
        },
        PinAction::Finish(r) => pin_trace(prompt, verify, label, flow.attempts(), answers, logins, r),
    }
}

/// Prompts for a PIN with `prompt` and checks it with `verify`, asking again
/// after a rejected PIN up to `max_attempts` times in all (at least once): the
/// outcome is `PinFlow`'s policy replayed over what the dialogs and the token
/// answered, every dialog labelled `token_label`.
pub fn prompt_and_verify_pin<P, V>(token_label: &str, max_attempts: u32, prompt: P, verify: V) -> (r: Result<String, PinError>) where
    P: Fn(&str, Option<&'static str>) -> Result<String, PinError>,
    V: Fn(&str) -> Result<(), LoginError>,

    requires
        forall|l: &str, m: Option<&'static str>| #[trigger] call_requires(prompt, (l, m)),
        forall|p: &str| #[trigger] call_requires(verify, (p,)),
    ensures
        exists|answers: Seq<Result<String, PinError>>, logins: Seq<Result<(), LoginError>>|
            #[trigger] pin_trace(
                prompt,
                verify,
                token_label@,
                pin_attempts(max_attempts),
                answers,
                logins,
                r,
            ),
{
    let (mut flow, mut action) = PinFlow::start(max_attempts);
    let ghost mut answers: Seq<Result<String, PinError>> = Seq::empty();
    let ghost mut logins: Seq<Result<(), LoginError>> = Seq::empty();
    let ghost attempts = flow.attempts();
    loop
        invariant
            flow.wf(),
            flow.attempts() == attempts,
            attempts == pin_attempts(max_attempts),
            forall|l: &str, m: Option<&'static str>| #[trigger] call_requires(prompt, (l, m)),
            forall|p: &str| #[trigger] call_requires(verify, (p,)),
            pin_loop_state(prompt, verify, token_label@, flow, action, answers, logins),
        decreases 3 * (flow.attempts() - flow.prompts()) + action_rank(action),
    {
        match action {
            PinAction::Prompt { retry_message } => {
                let answer = prompt(token_label, retry_message);
                let ghost k = answers.len() as int;
                proof {
                    let l = token_label;
                    assert(call_ensures(prompt, (l, attempt_message(k)), answer));
                    assert(dialog_called(prompt, token_label@, k, answer));
                    let old_answers = answers;
                    answers = answers.push(answer);
                    logins = logins.push(Err(LoginError::Incorrect));
                    assert forall|j: int| 0 <= j < answers.len() implies #[trigger] dialog_called(
                        prompt,
                        token_label@,
                        j,
                        answers[j],
                    ) by {
                        if j < k {
                            assert(answers[j] == old_answers[j]);
                        }
                    }
                }
                action = flow.entered(answer);
            },
            PinAction::Verify(pin) => {
                let ghost pv = pin@;
                let ps = pin.as_str();
                let login = verify(ps);
                proof {
                    let w = ps;
                    assert(call_ensures(verify, (w,), login) && w@ == pv);
                    assert(login_called(verify, pv, login));
                    logins = logins.update(logins.len() - 1, login);
                }
                action = flow.checked(pin, login);
                proof {
                    let n = answers.len() as int;
                    assert(pin_step(attempts, n - 1, answers[n - 1], logins[n - 1]) == match action {
                        PinAction::Finish(res) => Some(res),
                        _ => None,
                    });
                }
            },
            PinAction::Finish(r) => {
                proof {
                    assert(pin_trace(prompt, verify, token_label@, attempts, answers, logins, r));
                }
                return r;
            },
        }
    }
}

/// Shows the PIN dialog once, with no message (the first attempt).
pub fn prompt_pin<P>(token_label: &str, dialog: P) -> (r: Result<String, PinError>) where
    P: Fn(&str, Option<&'static str>) -> Result<String, PinError>,

    requires
        call_requires(dialog, (token_label, None::<&'static str>)),
    ensures
        call_ensures(dialog, (token_label, None::<&'static str>), r),
{
    dialog(token_label, None)
}

/// Tries the dialogs in order: `pinentry` first, then `zenity` when `pinentry`
/// is not available; with neither, there is no dialog.
pub fn prompt<A, B>(try_pinentry: A, try_zenity: B) -> (r: Result<String, PinError>) where
    A: FnOnce() -> Result<Option<String>, PinError>,
    B: FnOnce() -> Result<Option<String>, PinError>,

    requires
        call_requires(try_pinentry, ()),
        call_requires(try_zenity, ()),
    ensures
        exists|a: Result<Option<String>, PinError>|
            #[trigger] call_ensures(try_pinentry, (), a) && match a {
                Ok(Some(pin)) => r == Ok::<String, PinError>(pin),
                Err(e) => r == Err::<String, PinError>(e),
                Ok(None) => exists|b: Result<Option<String>, PinError>|
                    #[trigger] call_ensures(try_zenity, (), b) && match b {
                        Ok(Some(pin)) => r == Ok::<String, PinError>(pin),
                        Err(e) => r == Err::<String, PinError>(e),
                        Ok(None) => r == Err::<String, PinError>(PinError::NoDialog),
                    },
            },
{
    let a = try_pinentry();
    match a {
        Ok(Some(pin)) => Ok(pin),
        Err(e) => Err(e),
        Ok(None) => {
            let b = try_zenity();
            match b {
                Ok(Some(pin)) => Ok(pin),
                Err(e) => Err(e),
                Ok(None) => Err(PinError::NoDialog),
            }
        },
    }
}

/// The dialog body: the message about the previous attempt, a blank line, then
/// the request for the token's PIN.
pub open spec fn dialog_body(label: Seq<char>, error_message: Option<Seq<char>>) -> Seq<char> {
    match error_message {
        Some(e) => e + "\n\nEnter PIN for "@ + label,
        None => "Enter PIN for "@ + label,
    }
}

/// The view of an optional string.
pub open spec fn opt_view(m: Option<&str>) -> Option<Seq<char>> {
    match m {
        Some(s) => Some(s@),
        None => None,
    }
}

/// The text shown in the zenity, macOS and Windows dialogs.
pub fn dialog_text(token_label: &str, error_message: Option<&str>) -> (r: String)
    ensures
        r@ == dialog_body(token_label@, opt_view(error_message)),
{
    let mut r = String::new();
    match error_message {
        Some(e) => {
            push_str(&mut r, e);
            push_str(&mut r, "\n\nEnter PIN for ");
        },
        None => {
            push_str(&mut r, "Enter PIN for ");
        },
    }
    push_str(&mut r, token_label);
    r
}

/// The commands sent to `pinentry`: title, description, the error of the
/// previous attempt if any, prompt, then `GETPIN`.
pub open spec fn pinentry_commands(label: Seq<char>, error_message: Option<Seq<char>>) -> Seq<char> {
    "OPTION grab\nSETTITLE AutoDCR Bridge\nSETDESC Enter PIN for "@ + label + "\n"@ + match error_message {
        Some(e) => "SETERROR "@ + e + "\n"@,
        None => Seq::empty(),
    } + "SETPROMPT PIN:\nGETPIN\n"@
}

/// The script written to `pinentry`'s standard input.
pub fn pinentry_script(token_label: &str, error_message: Option<&str>) -> (r: String)
    ensures
        r@ == pinentry_commands(token_label@, opt_view(error_message)),
{
    let mut r = String::new();
    push_str(&mut r, "OPTION grab\nSETTITLE AutoDCR Bridge\nSETDESC Enter PIN for ");
    push_str(&mut r, token_label);
    push_str(&mut r, "\n");
    let ghost head = r@;
    if let Some(e) = error_message {
        push_str(&mut r, "SETERROR ");
        push_str(&mut r, e);
        push_str(&mut r, "\n");
    }
    push_str(&mut r, "SETPROMPT PIN:\nGETPIN\n");
    proof {
        match error_message {
            Some(e) => assert(r@ =~= head + ("SETERROR "@ + e@ + "\n"@) + "SETPROMPT PIN:\nGETPIN\n"@),
            None => assert(r@ =~= head + Seq::<char>::empty() + "SETPROMPT PIN:\nGETPIN\n"@),
        }
    }
    r
}

/// What one line of `pinentry`'s output says: `D <pin>` gives the PIN, a line
/// starting `ERR ` means the user cancelled, any other line says nothing.
pub open spec fn pinentry_line(line: Seq<char>) -> Option<Result<Option<Seq<char>>, PinError>> {
    if line.len() >= 2 && line[0] == 'D' && line[1] == ' ' {
        Some(Ok(Some(line.skip(2))))
    } else if line.len() >= 4 && line[0] == 'E' && line[1] == 'R' && line[2] == 'R' && line[3] == ' ' {
        Some(Err(PinError::Cancelled))
    } else {
        None
    }
}

/// A line ended by `\n` loses one trailing `\r`.
pub open spec fn strip_cr(line: Seq<char>) -> Seq<char> {
    if line.len() > 0 && line.last() == '\r' {
        line.drop_last()
    } else {
        line
    }
}

/// The answer in `pinentry`'s output `t`, reading the lines from the one that
/// starts at `start` (scanning at `i`): the first line that says something
/// decides; with none, there is no answer.
pub open spec fn pinentry_reply_from(t: Seq<char>, start: int, i: int) -> Result<Option<Seq<char>>, PinError>
    decreases t.len() - i,
{
    if i >= t.len() || i < start || start < 0 {
        if 0 <= start < t.len() {
            match pinentry_line(t.subrange(start, t.len() as int)) {
                Some(v) => v,
                None => Ok(None),
            }
        } else {
            Ok(None)
        }
    } else if t[i] == '\n' {
        match pinentry_line(strip_cr(t.subrange(start, i))) {
            Some(v) => v,
            None => pinentry_reply_from(t, i + 1, i + 1),
        }
    } else {
        pinentry_reply_from(t, start, i + 1)
    }
}

/// The answer in `pinentry`'s output.
pub open spec fn pinentry_reply(t: Seq<char>) -> Result<Option<Seq<char>>, PinError> {
    pinentry_reply_from(t, 0, 0)
}

fn line_verdict(text: &str, start: usize, end: usize) -> (r: Option<Result<Option<String>, PinError>>)
    requires
        start <= end <= text@.len(),
    ensures
        match pinentry_line(text@.subrange(start as int, end as int)) {
            None => r is None,
            Some(Ok(Some(p))) => r matches Some(Ok(Some(q))) && q@ == p,
            Some(Ok(None)) => false,
            Some(Err(_)) => r matches Some(Err(PinError::Cancelled)),
        },
{
    let ghost line = text@.subrange(start as int, end as int);
    if end - start >= 2 && text.get_char(start) == 'D' && text.get_char(start + 1) == ' ' {
        let rest = text.substring_char(start + 2, end);
        assert(rest@ =~= line.skip(2));
        return Some(Ok(Some(rest.to_owned())));
    }
    if end - start >= 4 && text.get_char(start) == 'E' && text.get_char(start + 1) == 'R' && text.get_char(start + 2) == 'R'
        && text.get_char(start + 3) == ' ' {
        return Some(Err(PinError::Cancelled));
    }
    None
}

/// Reads `pinentry`'s output: `D <pin>` gives the PIN, `ERR ...` means the user
/// cancelled, and output with neither gives no answer.
pub fn parse_pinentry_output(text: &str) -> (r: Result<Option<String>, PinError>)
    ensures
        match pinentry_reply(text@) {
            Ok(Some(p)) => r matches Ok(Some(q)) && q@ == p,
            Ok(None) => r matches Ok(None),
            Err(_) => r matches Err(PinError::Cancelled),
        },
{
    let n = text.unicode_len();
    let mut start: usize = 0;
    let mut i: usize = 0;
    while i < n
        invariant
            n == text@.len(),
            start <= i <= n,
            pinentry_reply(text@) == pinentry_reply_from(text@, start as int, i as int),
        decreases n - i,
    {
        if text.get_char(i) == '\n' {
            let end = if i > start && text.get_char(i - 1) == '\r' { i - 1 } else { i };
            assert(text@.subrange(start as int, end as int) =~= strip_cr(text@.subrange(start as int, i as int)));
            match line_verdict(text, start, end) {
                Some(v) => return v,
                None => {},
            }
            start = i + 1;
        }
        i = i + 1;
    }
    if start < n {
        match line_verdict(text, start, n) {
            Some(v) => return v,
            None => {},
        }
    }
    Ok(None)
}

/// Unicode `White_Space`, the characters `char::is_whitespace` accepts.
pub open spec fn is_white_space(c: char) -> bool {
    let u = c as u32;
    ||| 9 <= u <= 13
    ||| u == 32
    ||| u == 0x85
    ||| u == 0xA0
    ||| u == 0x1680
    ||| 0x2000 <= u <= 0x200A
    ||| u == 0x2028
    ||| u == 0x2029
    ||| u == 0x202F
    ||| u == 0x205F
    ||| u == 0x3000
}

fn white_space(c: char) -> (r: bool)
    ensures
        r == is_white_space(c),
{
    let u = c as u32;
    (9 <= u && u <= 13) || u == 32 || u == 0x85 || u == 0xA0 || u == 0x1680 || (0x2000 <= u && u <= 0x200A)
        || u == 0x2028 || u == 0x2029 || u == 0x202F || u == 0x205F || u == 0x3000
}

/// `s[a..b]` is `s` without its leading and trailing white space.
pub open spec fn trimmed_at(s: Seq<char>, a: int, b: int) -> bool {
    &&& 0 <= a <= b <= s.len()
    &&& forall|i: int| 0 <= i < a ==> is_white_space(#[trigger] s[i])
    &&& forall|i: int| b <= i < s.len() ==> is_white_space(#[trigger] s[i])
    &&& a < b ==> !is_white_space(s[a]) && !is_white_space(s[b - 1])
    &&& a == b ==> a == 0 && forall|i: int| 0 <= i < s.len() ==> is_white_space(#[trigger] s[i])
}

/// `s` without leading and trailing white space (`str::trim`).
pub fn trim_white_space(s: &str) -> (r: &str)
    ensures
        exists|a: int, b: int| trimmed_at(s@, a, b) && r@ == s@.subrange(a, b),
{
    let n = s.unicode_len();
    let mut a: usize = 0;
    while a < n && white_space(s.get_char(a))
        invariant
            n == s@.len(),
            a <= n,
            forall|i: int| 0 <= i < a ==> is_white_space(#[trigger] s@[i]),
        decreases n - a,
    {
        a = a + 1;
    }
    if a == n {
        let r = s.substring_char(0, 0);
        assert(trimmed_at(s@, 0, 0));
        return r;
    }
    let mut b: usize = n;
    while b > a && white_space(s.get_char(b - 1))
        invariant
            n == s@.len(),
            a < n,
            !is_white_space(s@[a as int]),
            a <= b <= n,
            forall|i: int| b <= i < n ==> is_white_space(#[trigger] s@[i]),
        decreases b,
    {
        b = b - 1;
    }
    let r = s.substring_char(a, b);
    assert(trimmed_at(s@, a as int, b as int));
    r
}

/// What a dialog's output yields: the trimmed text as the PIN, or a
/// cancellation when nothing but white space was entered.
pub open spec fn dialog_answer(out: Seq<char>, r: Result<String, PinError>) -> bool {
    exists|a: int, b: int| trimmed_at(out, a, b) && if a == b {
        r matches Err(PinError::Cancelled)
    } else {
        r matches Ok(p) && p@ == out.subrange(a, b)
    }
}

/// The PIN typed into a dialog whose standard output is `stdout`: the trimmed
/// text, or a cancellation when it is empty.
pub fn dialog_pin(stdout: &str) -> (r: Result<String, PinError>)
    ensures
        dialog_answer(stdout@, r),
{
    let t = trim_white_space(stdout);
    if t.unicode_len() == 0 {
        Err(PinError::Cancelled)
    } else {
        Ok(t.to_owned())
    }
}

/// The outcome of the macOS or zenity dialog: a failed exit is a cancellation,
/// else the PIN it printed.
pub fn dialog_outcome(success: bool, stdout: &str) -> (r: Result<String, PinError>)
    ensures
        !success ==> r matches Err(PinError::Cancelled),
        success ==> dialog_answer(stdout@, r),
{
    if !success {
        return Err(PinError::Cancelled);
    }
    dialog_pin(stdout)
}

/// `s` with every `from` replaced by `with`.
pub open spec fn replace_char(s: Seq<char>, from: char, with: Seq<char>) -> Seq<char>
    decreases s.len(),
{
    if s.len() == 0 {
        Seq::empty()
    } else {
        replace_char(s.drop_last(), from, with) + if s.last() == from {
            with
        } else {
            seq![s.last()]
        }
    }
}

/// Replaces every `from` in `s` by `with` (`str::replace` with a character pattern).
pub fn replace_all(s: &str, from: char, with: &str) -> (r: String)
    ensures
        r@ == replace_char(s@, from, with@),
{
    let n = s.unicode_len();
    let mut r = String::new();
    let mut i: usize = 0;
    while i < n
        invariant
            n == s@.len(),
            i <= n,
            r@ == replace_char(s@.take(i as int), from, with@),
        decreases n - i,
    {
        let c = s.get_char(i);
        assert(s@.take(i + 1).drop_last() =~= s@.take(i as int));
        if c == from {
            push_str(&mut r, with);
        } else {
            crate::text::push_char(&mut r, c);
            assert(r@ =~= replace_char(s@.take(i as int), from, with@) + seq![c]);
        }
        i = i + 1;
    }
    assert(s@.take(n as int) =~= s@);
    r
}

/// Quotes `value` for a PowerShell single-quoted string: each `'` is doubled.
pub fn ps_single_quote(value: &str) -> (r: String)
    ensures
        r@ == replace_char(value@, '\'', "''"@),
{
    replace_all(value, '\'', "''")
}

/// The AppleScript that shows the macOS PIN dialog; double quotes in the label
/// and message become single quotes.
pub fn macos_dialog_script(token_label: &str, error_message: Option<&str>) -> (r: String)
    ensures
        r@ == "set d to display dialog \""@ + replace_char(
            dialog_body(replace_char(token_label@, '"', "'"@), opt_view(error_message)),
            '"',
            "'"@,
        ) + "\" default answer \"\" with hidden answer with title \"AutoDCR Bridge\" buttons {\"Cancel\", \"OK\"} default button \"OK\"\nreturn text returned of d"@,
{
    let safe_label = replace_all(token_label, '"', "'");
    let text = dialog_text(safe_label.as_str(), error_message);
    let safe_text = replace_all(text.as_str(), '"', "'");
    let mut r = String::from_str("set d to display dialog \"");
    push_str(&mut r, safe_text.as_str());
    push_str(
        &mut r,
        "\" default answer \"\" with hidden answer with title \"AutoDCR Bridge\" buttons {\"Cancel\", \"OK\"} default button \"OK\"\nreturn text returned of d",
    );
    r
}

/// The PowerShell script before the dialog body.
pub const WINDOWS_SCRIPT_HEAD: &'static str = "
Add-Type -AssemblyName System.Windows.Forms
Add-Type -AssemblyName System.Drawing
[System.Windows.Forms.Application]::EnableVisualStyles()
$form = New-Object System.Windows.Forms.Form
$form.Text = 'AutoDCR Bridge'
$form.TopMost = $true
$form.StartPosition = 'CenterScreen'
$form.FormBorderStyle = 'FixedDialog'
$form.MaximizeBox = $false
$form.MinimizeBox = $false
$form.ShowInTaskbar = $true
$form.Width = 460
$form.Height = 200
$label = New-Object System.Windows.Forms.Label
$label.Text = '";

/// The PowerShell script after the dialog body.
pub const WINDOWS_SCRIPT_TAIL: &'static str = "'
$label.AutoSize = $false
$label.Width = 420
$label.Height = 50
$label.Location = New-Object System.Drawing.Point(12, 12)
$box = New-Object System.Windows.Forms.TextBox
$box.UseSystemPasswordChar = $true
$box.Width = 420
$box.Location = New-Object System.Drawing.Point(12, 72)
$ok = New-Object System.Windows.Forms.Button
$ok.Text = 'OK'
$ok.DialogResult = [System.Windows.Forms.DialogResult]::OK
$ok.Location = New-Object System.Drawing.Point(260, 115)
$ok.Width = 80
$cancel = New-Object System.Windows.Forms.Button
$cancel.Text = 'Cancel'
$cancel.DialogResult = [System.Windows.Forms.DialogResult]::Cancel
$cancel.Location = New-Object System.Drawing.Point(350, 115)
$cancel.Width = 80
$form.Controls.AddRange(@($label, $box, $ok, $cancel))
$form.AcceptButton = $ok
$form.CancelButton = $cancel
$form.Add_Shown({ $form.Activate(); $box.Focus() | Out-Null })
$result = $form.ShowDialog()
if ($result -eq [System.Windows.Forms.DialogResult]::OK) {
  if ([string]::IsNullOrWhiteSpace($box.Text)) { exit 2 }
  Write-Output $box.Text
} else {
  exit 1
}
";

/// The PowerShell script that shows the Windows PIN dialog, a top-most form
/// whose label holds the quoted dialog body.
pub fn windows_dialog_script(token_label: &str, error_message: Option<&str>) -> (r: String)
    ensures
        r@ == WINDOWS_SCRIPT_HEAD@ + replace_char(dialog_body(token_label@, opt_view(error_message)), '\'', "''"@)
            + WINDOWS_SCRIPT_TAIL@,
{
    let body = dialog_text(token_label, error_message);
    let body_q = ps_single_quote(body.as_str());
    let mut r = String::from_str(WINDOWS_SCRIPT_HEAD);
    push_str(&mut r, body_q.as_str());
    push_str(&mut r, WINDOWS_SCRIPT_TAIL);
    r
}

/// The outcome of the Windows dialog from its exit code and output: exit code 1
/// is a cancellation, another failure reports the error output, else the PIN it
/// printed.
pub fn windows_dialog_outcome(exit_code: Option<i32>, success: bool, token_label: &str, stdout: &str, stderr: &str) -> (r: Result<String, PinError>)
    ensures
        exit_code == Some(1i32) ==> r matches Err(PinError::Cancelled),
        exit_code != Some(1i32) && !success ==> (r matches Err(PinError::Other(m)) && m@ == "PowerShell PIN dialog failed (token="@
            + replace_char(token_label@, '\'', "''"@) + "): "@ + stderr@),
        exit_code != Some(1i32) && success ==> dialog_answer(stdout@, r),
{
    if exit_code == Some(1i32) {
        return Err(PinError::Cancelled);
    }
    if !success {
        let label_q = ps_single_quote(token_label);
        let mut m = String::from_str("PowerShell PIN dialog failed (token=");
        push_str(&mut m, label_q.as_str());
        push_str(&mut m, "): ");
        push_str(&mut m, stderr);
        return Err(PinError::Other(m));
    }
    dialog_pin(stdout)
}
} // verus!
