//! Names for the data files of nodes.
//!
//! A data file is named after the moment it is made and after the node it
//! belongs to. This module forms such names; making the file is left to
//! the caller.

use vstd::prelude::*;
use crate::text::{push_char, trim, trimmed};
use chrono::{Datelike, Timelike};

verus! {

/// A moment, to the second, as the calendar and the clock show it.
#[derive(Clone, Copy, Debug, PartialEq, Eq, Structural)]
pub struct Stamp {
    pub year: i32,
    pub month: u32,
    pub day: u32,
    pub hour: u32,
    pub minute: u32,
    pub second: u32,
}

impl Stamp {
    /// The month, the day and the time of day are such as exist.
    pub open spec fn wf(&self) -> bool {
        &&& 1 <= self.month <= 12
        &&& 1 <= self.day <= 31
        &&& self.hour <= 23
        &&& self.minute <= 59
        &&& self.second <= 59
    }
}

/// The moment that lies `secs` seconds and `nanos` nanoseconds after the
/// start of 1970 in universal time, as `chrono` reckons it, if it reckons
/// that far.
pub uninterp spec fn civil_time(secs: i64, nanos: u32) -> Option<Stamp>;

/// `chrono::DateTime::from_timestamp`, read through `year`, `month`, `day`,
/// `hour`, `minute` and `second`.
///
/// The answer depends on the two numbers alone and is named
/// [`civil_time`]. Of a moment that comes back the contract claims the
/// ranges that `chrono` documents for the six readings, and no more.
#[verifier::external_body]
pub(crate) fn stamp_at(secs: i64, nanos: u32) -> (r: Option<Stamp>)
    ensures
        r == civil_time(secs, nanos),
        r matches Some(stamp) ==> stamp.wf(),
{
    let at = chrono::DateTime::from_timestamp(secs, nanos)?;
    Some(
        Stamp {
            year: at.year(),
            month: at.month(),
            day: at.day(),
            hour: at.hour(),
            minute: at.minute(),
            second: at.second(),
        },
    )
}

/// The character that writes the digit `d`.
pub open spec fn digit(d: nat) -> char
    recommends
        d < 10,
{
    ((48 + d) as u8) as char
}

/// `n` written in decimal, without leading zeros.
pub open spec fn decimal(n: nat) -> Seq<char>
    decreases n,
{
    if n < 10 {
        seq![digit(n)]
    } else {
        decimal(n / 10).push(digit(n % 10))
    }
}

/// `n` written in decimal, with a minus sign before it if it is negative.
pub open spec fn signed_decimal(n: int) -> Seq<char> {
    if n < 0 {
        seq!['-'] + decimal((-n) as nat)
    } else {
        decimal(n as nat)
    }
}

/// Whether `c` is an ASCII letter or digit.
pub open spec fn is_ascii_alphanumeric(c: char) -> bool {
    ('0' <= c && c <= '9') || ('a' <= c && c <= 'z') || ('A' <= c && c <= 'Z')
}

/// What becomes of `c` in the name of a file: a space, a dot, a slash or a
/// backslash becomes a hyphen; an ASCII letter or digit, a hyphen and an
/// underscore stay; nothing else is kept.
pub open spec fn sanitized_char(c: char) -> Option<char> {
    if c == ' ' || c == '.' || c == '/' || c == '\\' {
        Some('-')
    } else if is_ascii_alphanumeric(c) || c == '-' || c == '_' {
        Some(c)
    } else {
        None
    }
}

/// What becomes of each character of `s`, one after the other.
pub open spec fn sanitized_chars(s: Seq<char>) -> Seq<char>
    decreases s.len(),
{
    if s.len() == 0 {
        Seq::empty()
    } else {
        match sanitized_char(s.last()) {
            Some(c) => sanitized_chars(s.drop_last()).push(c),
            None => sanitized_chars(s.drop_last()),
        }
    }
}

/// The name `name` as it goes into the name of a file: trimmed, then
/// character by character.
pub open spec fn sanitized(name: Seq<char>) -> Seq<char> {
    sanitized_chars(trim(name))
}

/// The name of the data file made at `stamp` for the node named `name`,
/// with the extension `ext`: year, month, day, hour, minute and second in
/// decimal and without padding, a hyphen, the name, the extension.
pub open spec fn file_name(name: Seq<char>, ext: Seq<char>, stamp: Stamp) -> Seq<char> {
    signed_decimal(stamp.year as int) + decimal(stamp.month as nat) + decimal(stamp.day as nat)
        + decimal(stamp.hour as nat) + decimal(stamp.minute as nat) + decimal(stamp.second as nat)
        + seq!['-'] + sanitized(name) + ext
}

/// Append `n` in decimal to `out`.
fn push_decimal(out: &mut String, n: u64)
    ensures
        final(out)@ == old(out)@ + decimal(n as nat),
    decreases n,
{
    if n >= 10 {
        push_decimal(out, n / 10);
    }
    let d: u8 = (n % 10) as u8;
    push_char(out, (48u8 + d) as char);
    proof {
        assert(out@ =~= old(out)@ + decimal(n as nat));
    }
}

/// Append `n` in decimal to `out`, with its sign if it is negative.
fn push_signed_decimal(out: &mut String, n: i32)
    ensures
        final(out)@ == old(out)@ + signed_decimal(n as int),
{
    if n < 0 {
        push_char(out, '-');
        push_decimal(out, (-(n as i64)) as u64);
        proof {
            assert(out@ =~= old(out)@ + signed_decimal(n as int));
        }
    } else {
        push_decimal(out, n as u64);
    }
}

/// Errors of a store of data files.
#[derive(Debug, PartialEq, Eq)]
pub enum DataFileStoreError {
    /// The file system refused; the text says why.
    FileSystemError(String),
}

impl DataFileStoreError {
    /// The message that describes this error.
    pub fn message(&self) -> (r: String)
        ensures
            r@ == match *self {
                DataFileStoreError::FileSystemError(why) => "filesystem error: "@ + why@,
            },
    {
        match self {
            DataFileStoreError::FileSystemError(why) => {
                "filesystem error: ".to_owned().concat(why.as_str())
            },
        }
    }
}

/// Where data files are made.
#[derive(Debug)]
pub struct DataFileStore {
    root: String,
}

impl View for DataFileStore {
    type V = Seq<char>;

    closed spec fn view(&self) -> Seq<char> {
        self.root@
    }
}

impl DataFileStore {
    /// A store whose files go under the directory `root`.
    pub fn new(root: &str) -> (r: DataFileStore)
        ensures
            r@ == root@,
    {
        DataFileStore { root: root.to_owned() }
    }

    /// The directory under which the files go.
    pub fn root(&self) -> (r: &str)
        ensures
            r@ == self@,
    {
        self.root.as_str()
    }

    /// The name `name` as it goes into the name of a file.
    pub fn sanitize_name(name: &str) -> (r: String)
        ensures
            r@ == sanitized(name@),
    {
        let clean = trimmed(name);
        let n: usize = clean.as_str().unicode_len();
        let mut out = String::new();
        let mut i: usize = 0;
        proof {
            assert(clean@.take(0) =~= Seq::<char>::empty());
        }
        while i < n
            invariant
                i <= n,
                n == clean@.len(),
                out@ == sanitized_chars(clean@.take(i as int)),
            decreases n - i,
        {
            let c: char = clean.as_str().get_char(i);
            proof {
                let upto = clean@.take(i + 1);
                assert(upto.drop_last() =~= clean@.take(i as int));
                assert(upto.last() == c);
            }
            if c == ' ' || c == '.' || c == '/' || c == '\\' {
                push_char(&mut out, '-');
            } else if ('0' <= c && c <= '9') || ('a' <= c && c <= 'z') || ('A' <= c && c <= 'Z')
                || c == '-' || c == '_' {
                push_char(&mut out, c);
            }
            i = i + 1;
        }
        proof {
            assert(clean@.take(n as int) =~= clean@);
        }
        out
    }

    /// The name of the data file made at the moment `now` for the node
    /// named `name`, with the extension `ext`.
    pub fn data_file_name(name: &str, ext: &str, now: &Stamp) -> (r: String)
        ensures
            r@ == file_name(name@, ext@, *now),
    {
        let clean = DataFileStore::sanitize_name(name);
        let mut out = String::new();
        push_signed_decimal(&mut out, now.year);
        push_decimal(&mut out, now.month as u64);
        push_decimal(&mut out, now.day as u64);
        push_decimal(&mut out, now.hour as u64);
        push_decimal(&mut out, now.minute as u64);
        push_decimal(&mut out, now.second as u64);
        push_char(&mut out, '-');
        out.append(clean.as_str());
        out.append(ext);
        proof {
            assert(out@ =~= file_name(name@, ext@, *now));
        }
        out
    }

    /// The name of the data file made `secs` seconds and `nanos`
    /// nanoseconds after the start of 1970 for the node named `name`, with
    /// the extension `ext`; `None` for a moment that the calendar does not
    /// reach.
    pub fn data_file_name_at(name: &str, ext: &str, secs: i64, nanos: u32) -> (r: Option<String>)
        ensures
            match civil_time(secs, nanos) {
                Some(now) => r is Some && r->0@ == file_name(name@, ext@, now),
                None => r is None,
            },
    {
        match stamp_at(secs, nanos) {
            Some(now) => Some(DataFileStore::data_file_name(name, ext, &now)),
            None => None,
        }
    }
}

} // verus!
