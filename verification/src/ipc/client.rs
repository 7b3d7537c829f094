//! What the CLI subcommands (complete, accept, dismiss, status, stop) send
//! to the running daemon, and what they print of its answers.
//!
//! The connection itself (one JSON line each way over the socket) is made
//! by the program around this library.
use vstd::prelude::*;
use crate::ipc::protocol::{CompletionItem, ItemView, Request, Response, item_views};
use crate::text::{decimal, decimal_string, owned, push_char, push_str};

verus! {

/// The request for completions of a command line.
pub fn request_complete(buffer: &str, cursor: usize, cwd: &str, terminal_cols: Option<u16>) -> (r: Request)
    ensures
        r matches Request::Complete { buffer: b, cursor: c, cwd: w, terminal_cols: t }
            && b@ == buffer@ && c == cursor && w@ == cwd@ && t == terminal_cols,
{
    Request::Complete { buffer: owned(buffer), cursor, cwd: owned(cwd), terminal_cols }
}

/// The notice that the user accepted a suggestion.
pub fn request_accept(text: &str) -> (r: Request)
    ensures
        r matches Request::Accept { text: t } && t@ == text@,
{
    Request::Accept { text: owned(text) }
}

/// The notice that the user dismissed the popup.
pub fn request_dismiss() -> (r: Request)
    ensures
        r is Dismiss,
{
    Request::Dismiss
}

/// The health check request.
pub fn request_status() -> (r: Request)
    ensures
        r is Status,
{
    Request::Status
}

/// The request to stop the daemon.
pub fn request_stop() -> (r: Request)
    ensures
        r is Stop,
{
    Request::Stop
}

/// A field with tabs and newlines replaced by spaces, so that it stays in
/// its column of the shell output.
pub open spec fn sanitize_spec(s: Seq<char>) -> Seq<char> {
    s.map_values(|c: char| if c == '\t' || c == '\n' { ' ' } else { c })
}

/// One line of the shell output: display, insert text and description,
/// tab-separated.
pub open spec fn shell_line(it: ItemView) -> Seq<char> {
    sanitize_spec(it.display) + seq!['\t'] + sanitize_spec(it.insert) + seq!['\t'] + sanitize_spec(it.description)
        + seq!['\n']
}

/// The lines of all items.
pub open spec fn shell_lines(items: Seq<ItemView>) -> Seq<char>
    decreases items.len(),
{
    if items.len() == 0 {
        seq![]
    } else {
        shell_lines(items.drop_last()) + shell_line(items.last())
    }
}

/// The shell-friendly output of a completion response: the item count on
/// the first line, then one line per item; nothing when there are no
/// completions.
pub open spec fn shell_output_spec(r: Response) -> Seq<char> {
    match r {
        Response::Completions { items, .. } => decimal(items@.len()) + seq!['\n'] + shell_lines(item_views(items@)),
        _ => seq![],
    }
}

/// Appends `s` with tabs and newlines replaced by spaces.
fn push_sanitized(out: &mut String, s: &str)
    ensures
        final(out)@ == old(out)@ + sanitize_spec(s@),
{
    let cs = crate::text::chars_of(s);
    let ghost start = out@;
    let mut i: usize = 0;
    assert(sanitize_spec(s@).take(0) =~= Seq::<char>::empty());
    while i < cs.len()
        invariant
            i <= cs@.len(),
            cs@ == s@,
            out@ == start + sanitize_spec(s@).take(i as int),
        decreases cs.len() - i,
    {
        let c = cs[i];
        if c == '\t' || c == '\n' {
            push_char(out, ' ');
        } else {
            push_char(out, c);
        }
        assert(sanitize_spec(s@).take(i + 1) =~= sanitize_spec(s@).take(i as int).push(sanitize_spec(s@)[i as int]));
        i += 1;
    }
    assert(sanitize_spec(s@).take(cs@.len() as int) =~= sanitize_spec(s@));
}

/// Appends the shell line of one item.
fn push_shell_line(out: &mut String, it: &CompletionItem)
    ensures
        final(out)@ == old(out)@ + shell_line(it@),
{
    let ghost start = out@;
    push_sanitized(out, it.display.as_str());
    push_char(out, '\t');
    push_sanitized(out, it.insert.as_str());
    push_char(out, '\t');
    push_sanitized(out, it.description.as_str());
    push_char(out, '\n');
    assert(out@ =~= start + shell_line(it@));
}

/// Shell-friendly output of a completion response (used by shell hooks,
/// which need no JSON parsing): the item count on the first line, then one
/// line per item, tab-separated: display, insert text, description. Tabs
/// and newlines inside fields become spaces. Empty output when there are
/// no completions.
pub fn shell_output(response: &Response) -> (r: String)
    ensures
        r@ == shell_output_spec(*response),
{
    match response {
        Response::Completions { items, .. } => {
            let mut out = decimal_string(items.len() as u64);
            push_char(&mut out, '\n');
            let ghost head = out@;
            let mut i: usize = 0;
            assert(item_views(items@).take(0) =~= Seq::<ItemView>::empty());
            while i < items.len()
                invariant
                    i <= items@.len(),
                    out@ == head + shell_lines(item_views(items@).take(i as int)),
                decreases items.len() - i,
            {
                push_shell_line(&mut out, &items[i]);
                proof {
                    let v = item_views(items@);
                    assert(v.take(i + 1).drop_last() =~= v.take(i as int));
                    assert(v.take(i + 1).last() == items@[i as int]@);
                    assert(out@ =~= head + shell_lines(v.take(i + 1)));
                }
                i += 1;
            }
            assert(item_views(items@).take(items@.len() as int) =~= item_views(items@));
            out
        },
        _ => String::new(),
    }
}

/// What `status` prints for a daemon's answer, or the error it reports.
pub open spec fn status_report_spec(r: Response) -> Result<Seq<char>, Seq<char>> {
    match r {
        Response::StatusInfo { specs_loaded, uptime_secs, pid } => Ok(
            "tabra daemon is running\n  PID: "@ + decimal(pid as nat) + "\n  uptime: "@ + decimal(uptime_secs as nat)
                + "s\n  specs loaded: "@ + decimal(specs_loaded as nat) + "\n"@,
        ),
        Response::Error { message } => Err("daemon error: "@ + message@),
        _ => Err("unexpected response from daemon"@),
    }
}

/// The status report of the daemon's answer to a health check: the lines
/// to print when it is running, else the error to report.
pub fn status_report(response: &Response) -> (r: Result<String, String>)
    ensures
        match (r, status_report_spec(*response)) {
            (Ok(a), Ok(b)) => a@ == b,
            (Err(a), Err(b)) => a@ == b,
            _ => false,
        },
{
    match response {
        Response::StatusInfo { specs_loaded, uptime_secs, pid } => {
            let mut s = owned("tabra daemon is running\n  PID: ");
            let p = decimal_string(*pid as u64);
            push_str(&mut s, p.as_str());
            push_str(&mut s, "\n  uptime: ");
            let u = decimal_string(*uptime_secs);
            push_str(&mut s, u.as_str());
            push_str(&mut s, "s\n  specs loaded: ");
            let n = decimal_string(*specs_loaded as u64);
            push_str(&mut s, n.as_str());
            push_str(&mut s, "\n");
            Ok(s)
        },
        Response::Error { message } => {
            let mut s = owned("daemon error: ");
            push_str(&mut s, message.as_str());
            Err(s)
        },
        _ => Err(owned("unexpected response from daemon")),
    }
}

/// Whether `needle` occurs in `hay` at `i`.
pub open spec fn occurs_at(hay: Seq<char>, needle: Seq<char>, i: int) -> bool {
    0 <= i && i + needle.len() <= hay.len() && hay.subrange(i, i + needle.len()) == needle
}

/// Whether `needle` occurs in `hay`.
pub open spec fn contains_text(hay: Seq<char>, needle: Seq<char>) -> bool {
    exists|i: int| #[trigger] occurs_at(hay, needle, i)
}

/// Substring search.
pub fn text_contains(hay: &str, needle: &str) -> (r: bool)
    ensures
        r == contains_text(hay@, needle@),
{
    let h = crate::text::chars_of(hay);
    let n = crate::text::chars_of(needle);
    if n.len() > h.len() {
        proof {
            assert forall|i: int| !#[trigger] occurs_at(hay@, needle@, i) by {}
        }
        return false;
    }
    let hl = h.len();
    let last = hl - n.len();
    let mut i: usize = 0;
    while i <= last
        invariant
            h@ == hay@,
            n@ == needle@,
            n@.len() <= h@.len(),
            hl == h@.len(),
            last == h@.len() - n@.len(),
            i <= last + 1,
            forall|k: int| 0 <= k < i ==> !#[trigger] occurs_at(hay@, needle@, k),
        decreases h.len() - i,
    {
        let mut j: usize = 0;
        let mut same = true;
        while j < n.len() && same
            invariant
                h@ == hay@,
                n@ == needle@,
                i + n@.len() <= h@.len(),
                hl == h@.len(),
                j <= n@.len(),
                same == (forall|k: int| 0 <= k < j ==> h@[i + k] == n@[k]),
            decreases n.len() - j,
        {
            assert(i + j < h@.len());
            if h[i + j] != n[j] {
                same = false;
            }
            j += 1;
        }
        if same {
            assert(hay@.subrange(i as int, i + needle@.len()) =~= needle@);
            assert(occurs_at(hay@, needle@, i as int));
            return true;
        }
        proof {
            let k = choose|k: int| 0 <= k < j && h@[i + k] != n@[k];
            assert(hay@.subrange(i as int, i + needle@.len())[k] != needle@[k]);
        }
        i += 1;
    }
    proof {
        assert forall|k: int| !#[trigger] occurs_at(hay@, needle@, k) by {
            if 0 <= k && k < i {
            }
        }
    }
    false
}

/// What `stop` prints for the outcome of its request, or the error it
/// reports: a closed connection counts as the daemon having stopped.
pub open spec fn stop_report_spec(outcome: Result<Response, Seq<char>>) -> Result<Seq<char>, Seq<char>> {
    match outcome {
        Ok(Response::Goodbye) => Ok("tabra daemon stopped"@),
        Ok(_) => Ok("tabra daemon acknowledged stop"@),
        Err(e) => if contains_text(e, "Connection reset"@) || contains_text(e, "Broken pipe"@) {
            Ok("tabra daemon stopped"@)
        } else {
            Err(e)
        },
    }
}

/// The report of a stop request, given the daemon's answer or the text of
/// the error that ended the exchange.
pub fn stop_report(outcome: Result<Response, String>) -> (r: Result<String, String>)
    ensures
        match (
            r,
            stop_report_spec(
                match outcome {
                    Ok(x) => Ok(x),
                    Err(e) => Err(e@),
                },
            ),
        ) {
            (Ok(a), Ok(b)) => a@ == b,
            (Err(a), Err(b)) => a@ == b,
            _ => false,
        },
{
    match outcome {
        Ok(Response::Goodbye) => Ok(owned("tabra daemon stopped")),
        Ok(_) => Ok(owned("tabra daemon acknowledged stop")),
        Err(e) => {
            if text_contains(e.as_str(), "Connection reset") || text_contains(e.as_str(), "Broken pipe") {
                Ok(owned("tabra daemon stopped"))
            } else {
                Err(e)
            }
        },
    }
}

} // verus!
