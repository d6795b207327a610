//! What the command line accepts.

use vstd::prelude::*;
use vstd::string::{StrSliceExecFns, StringExecFns};

verus! {

/// Whether this is an octal digit.
pub open spec fn is_octal_digit(c: char) -> bool {
    '0' <= c <= '7'
}

/// The number that octal digits stand for.
pub open spec fn octal_value(digits: Seq<char>) -> nat
    decreases digits.len(),
{
    if digits.len() == 0 {
        0
    } else {
        8 * octal_value(digits.drop_last()) + (digits.last() as nat - '0' as nat) as nat
    }
}

/// The digits of a number, behind a plus sign if there is one.
pub open spec fn digits_of(text: Seq<char>) -> Seq<char> {
    if text.len() > 0 && text[0] == '+' {
        text.skip(1)
    } else {
        text
    }
}

/// Whether the text is an octal number of 32 bits.
pub open spec fn is_octal(text: Seq<char>) -> bool {
    let digits = digits_of(text);
    &&& digits.len() > 0
    &&& forall|i: int| 0 <= i < digits.len() ==> is_octal_digit(#[trigger] digits[i])
    &&& octal_value(digits) <= u32::MAX
}

/// More digits make no smaller number.
proof fn lemma_octal_grows(digits: Seq<char>, n: int)
    requires
        0 <= n <= digits.len(),
    ensures
        octal_value(digits.take(n)) <= octal_value(digits),
    decreases digits.len(),
{
    if n == digits.len() {
        assert(digits.take(n) =~= digits);
    } else {
        assert(digits.drop_last().take(n) =~= digits.take(n));
        lemma_octal_grows(digits.drop_last(), n);
    }
}

/// Reads a mode.
pub fn parse_octal(s: &str) -> (r: Result<u32, String>)
    ensures
        if is_octal(s@) {
            r matches Ok(n) && n == octal_value(digits_of(s@))
        } else {
            r matches Err(e) && e@ == "MODE must be an octal number, e.g. 755"@
        },
{
    let len: usize = s.unicode_len();
    let start: usize = if len > 0 && s.get_char(0) == '+' {
        1
    } else {
        0
    };
    let ghost digits = digits_of(s@);
    if start == len {
        return Err("MODE must be an octal number, e.g. 755".to_string());
    }
    let mut value: u32 = 0;
    let mut i: usize = start;
    assert(digits.take(0) =~= seq![]);
    while i < len
        invariant
            start <= i <= len,
            len == s@.len(),
            digits == digits_of(s@),
            digits.len() == len - start,
            forall|k: int| 0 <= k < digits.len() ==> digits[k] == s@[k + start],
            forall|k: int| 0 <= k < i - start ==> is_octal_digit(#[trigger] digits[k]),
            value == octal_value(digits.take(i - start)),
        decreases len - i,
    {
        let c: char = s.get_char(i);
        let ghost n = i - start;
        assert(digits[n] == c);
        if c < '0' || c > '7' {
            assert(!is_octal_digit(digits[n]));
            return Err("MODE must be an octal number, e.g. 755".to_string());
        }
        let digit: u64 = (c as u64) - 48;
        let next: u64 = (value as u64) * 8 + digit;
        proof {
            assert(digits.take(n + 1).drop_last() =~= digits.take(n));
            assert(digits.take(n + 1).last() == c);
            assert(next == octal_value(digits.take(n + 1)));
            lemma_octal_grows(digits, n + 1);
        }
        if next > u32::MAX as u64 {
            return Err("MODE must be an octal number, e.g. 755".to_string());
        }
        value = next as u32;
        i = i + 1;
    }
    assert(digits.take(len - start) =~= digits);
    Ok(value)
}

/// Accepts the path of an image that is to be created, given what is known of
/// its parent: it has to be a directory, or empty.
pub fn ensure_parent_exists(
    s: &str,
    has_parent: bool,
    parent_is_dir: bool,
    parent_is_empty: bool,
) -> (r: Result<String, String>)
    ensures
        if has_parent && (parent_is_dir || parent_is_empty) {
            r matches Ok(p) && p@ == s@
        } else {
            r matches Err(e) && e@ == "parent directory of IMAGE does not exist"@
        },
{
    if has_parent && (parent_is_dir || parent_is_empty) {
        return Ok(s.to_string());
    }
    Err("parent directory of IMAGE does not exist".to_string())
}

/// A message about a path.
fn about(message: &str, s: &str) -> (r: String)
    ensures
        r@ == message@ + s@,
{
    let mut text = message.to_string();
    text.append(s);
    text
}

/// Accepts the path of a file, given what is known of it.
pub fn parse_existing_file(s: &str, present: bool, is_file: bool) -> (r: Result<String, String>)
    ensures
        if !present {
            r matches Err(e) && e@ == "Path does not exist: "@ + s@
        } else if !is_file {
            r matches Err(e) && e@ == "Path is not a file: "@ + s@
        } else {
            r matches Ok(p) && p@ == s@
        },
{
    if !present {
        return Err(about("Path does not exist: ", s));
    }
    if !is_file {
        return Err(about("Path is not a file: ", s));
    }
    Ok(s.to_string())
}

/// Accepts the path of a directory, given what is known of it.
pub fn parse_existing_dir(s: &str, present: bool, is_dir: bool) -> (r: Result<String, String>)
    ensures
        if !present {
            r matches Err(e) && e@ == "Path does not exist: "@ + s@
        } else if !is_dir {
            r matches Err(e) && e@ == "Path is not a directory: "@ + s@
        } else {
            r matches Ok(p) && p@ == s@
        },
{
    if !present {
        return Err(about("Path does not exist: ", s));
    }
    if !is_dir {
        return Err(about("Path is not a directory: ", s));
    }
    Ok(s.to_string())
}

/// What came out of the channel to the kernel.
#[derive(Clone, Copy, Debug, PartialEq, Eq, Structural)]
pub enum ChannelEvent {
    Request,
    Closed,
    Failed,
}

/// What the server does next.
#[derive(Clone, Copy, Debug, PartialEq, Eq, Structural)]
pub enum ServerAction {
    Serve,
    Stop,
}

/// A mounted file system is served as long as requests come: it stops when the
/// channel is closed or cannot be read. A request that could not be handled
/// does not stop it.
pub fn next_action(event: ChannelEvent) -> (r: ServerAction)
    ensures
        r == if event == ChannelEvent::Request {
            ServerAction::Serve
        } else {
            ServerAction::Stop
        },
{
    match event {
        ChannelEvent::Request => ServerAction::Serve,
        ChannelEvent::Closed => ServerAction::Stop,
        ChannelEvent::Failed => ServerAction::Stop,
    }
}

} // verus!
