//! The upload of an image into the workspace: which names and sizes are
//! accepted, and where the image is stored.
//!
//! Images go to `assets/YYYY-MM/` below the workspace, by the month of the
//! upload. A name that is taken already gets the time of the upload behind
//! it.

use chrono::DateTime;
use chrono::Datelike;
use vstd::prelude::*;
use vstd::string::*;
use crate::error::AppError;
use crate::error::ErrorKind;
use crate::error::ErrorView;
use crate::fs::fail;
use crate::fs::reject_reply;
use crate::fs::unexpected_reply;
use crate::fs::FsReply;
use crate::fs::FsRequest;
use crate::fs::Outcome;
use crate::fs::Step;
use crate::operations::follows;
use crate::operations::no_file_name;
use crate::operations::temp_path_of;
use crate::operations::write_file_binary;
use crate::operations::write_starts;
use crate::operations::Operation;
use crate::path::join;
use crate::path::joined;
use crate::path::same_chars;
use crate::text::concat;
use crate::text::chars_of;
use crate::text::decimal;
use crate::text::lowercase;
use crate::text::push_decimal;
use crate::text::string_of;
use crate::text::to_lowercase;

verus! {

/// The largest size, in bytes, of an image that is accepted: 10 MiB.
pub const MAX_IMAGE_SIZE: usize = 10485760;

/// Whether the character is a letter or a digit, as the standard library
/// tells.
pub uninterp spec fn alphanumeric(c: char) -> bool;

/// `char::is_alphanumeric`: whether the character is a letter or a digit.
/// The result depends on the character alone.
#[verifier::external_body]
fn is_alphanumeric(c: char) -> (b: bool)
    ensures
        b == alphanumeric(c),
{
    c.is_alphanumeric()
}

/// Whether a character may stand in the name of an upload.
pub open spec fn kept(c: char) -> bool {
    alphanumeric(c) || c == '-' || c == '_' || c == '.'
}

/// The name with an underscore in place of every character that may not
/// stand in the name of an upload.
pub open spec fn sanitized(name: Seq<char>) -> Seq<char> {
    Seq::new(
        name.len(),
        |i: int|
            if kept(name[i]) {
                name[i]
            } else {
                '_'
            },
    )
}

/// The name with an underscore in place of every character that is not a
/// letter, a digit, a dash, an underscore or a dot.
pub fn sanitize_filename(filename: &str) -> (out: String)
    ensures
        out@ == sanitized(filename@),
{
    let chars = chars_of(filename);
    let mut out = String::new();
    let mut i: usize = 0;
    while i < chars.len()
        invariant
            i <= chars.len(),
            chars@ == filename@,
            out@ == sanitized(filename@).take(i as int),
        decreases chars.len() - i,
    {
        let c = chars[i];
        let keep = is_alphanumeric(c) || c == '-' || c == '_' || c == '.';
        if keep {
            out.push(c);
        } else {
            out.push('_');
        }
        proof {
            assert(sanitized(filename@).take(i + 1) == sanitized(filename@).take(i as int).push(
                sanitized(filename@)[i as int],
            ));
        }
        i += 1;
    }
    proof {
        assert(sanitized(filename@).take(i as int) == sanitized(filename@));
    }
    out
}

/// Whether the text holds a slash or a backslash.
pub open spec fn has_separator(s: Seq<char>) -> bool {
    exists|i: int| 0 <= i < s.len() && (#[trigger] s[i] == '/' || s[i] == '\\')
}

/// What stands behind the last dot of the text; the whole text where it
/// holds no dot.
pub open spec fn after_last_dot(s: Seq<char>) -> Seq<char>
    decreases s.len(),
{
    if s.len() == 0 || s.last() == '.' {
        Seq::empty()
    } else {
        after_last_dot(s.drop_last()).push(s.last())
    }
}

/// The extension of an upload's name: what stands behind its last dot, in
/// lowercase.
pub open spec fn extension_of(name: Seq<char>) -> Seq<char> {
    lowercase(after_last_dot(name))
}

/// Whether images with this extension are accepted.
pub open spec fn allowed(extension: Seq<char>) -> bool {
    ||| extension == "png"@
    ||| extension == "jpg"@
    ||| extension == "jpeg"@
    ||| extension == "gif"@
    ||| extension == "webp"@
    ||| extension == "svg"@
}

/// The text without the suffix at its end, however often the suffix is
/// repeated there.
pub open spec fn without_suffix(s: Seq<char>, suffix: Seq<char>) -> Seq<char>
    decreases s.len(),
{
    if suffix.len() > 0 && s.len() >= suffix.len() && s.subrange(
        s.len() - suffix.len(),
        s.len() as int,
    ) == suffix {
        without_suffix(s.subrange(0, s.len() - suffix.len()), suffix)
    } else {
        s
    }
}

/// The number written in decimal and filled with zeros in front up to the
/// given width.
pub open spec fn padded(n: nat, width: nat) -> Seq<char> {
    if decimal(n).len() < width {
        zeros((width - decimal(n).len()) as nat) + decimal(n)
    } else {
        decimal(n)
    }
}

/// The given number of zeros.
pub open spec fn zeros(count: nat) -> Seq<char> {
    Seq::new(count, |i: int| '0')
}

/// The number written in decimal, with a minus sign where it is negative.
pub open spec fn signed(n: int) -> Seq<char> {
    if n < 0 {
        seq!['-'] + decimal((-n) as nat)
    } else {
        decimal(n as nat)
    }
}

/// The name of the directory for the uploads of a month: the year in four
/// places at least, a dash, the month in two places at least.
pub open spec fn month_dir(year: int, month: nat) -> Seq<char> {
    (if year < 0 {
        seq!['-'] + padded((-year) as nat, 3)
    } else {
        padded(year as nat, 4)
    }) + seq!['-'] + padded(month, 2)
}

/// The directory in which the uploads of a month are stored.
pub open spec fn assets_dir(workspace: Seq<char>, year: int, month: nat) -> Seq<char> {
    joined(joined(workspace, "assets"@), month_dir(year, month))
}

/// The name under which an upload is stored: its own name where that is
/// free; else its name without its extension, a dash, the time of the
/// upload, a dot and the extension.
pub open spec fn stored_name(name: Seq<char>, taken: bool, timestamp: int) -> Seq<char> {
    if taken {
        let extension = extension_of(name);
        without_suffix(name, seq!['.'] + extension) + seq!['-'] + signed(timestamp) + seq!['.']
            + extension
    } else {
        name
    }
}

/// The path of a stored upload, relative to the workspace.
pub open spec fn relative_path(year: int, month: nat, stored: Seq<char>) -> Seq<char> {
    "assets/"@ + month_dir(year, month) + seq!['/'] + stored
}

/// The error of an upload of `len` bytes, which is too large.
pub open spec fn image_too_large(len: nat) -> ErrorView {
    ErrorView {
        kind: ErrorKind::FileTooLarge,
        message: "Image size "@ + decimal(len) + " bytes exceeds maximum of "@ + decimal(
            MAX_IMAGE_SIZE as nat,
        ) + " bytes (10MB)"@,
    }
}

/// The error of an upload while no workspace is open.
pub open spec fn no_workspace() -> ErrorView {
    ErrorView { kind: ErrorKind::InvalidPath, message: "No workspace open"@ }
}

/// The error of an upload whose name holds a separator.
pub open spec fn separator_in_name() -> ErrorView {
    ErrorView { kind: ErrorKind::InvalidPath, message: "Filename cannot contain path separators"@ }
}

/// The error of an upload whose extension is not accepted.
pub open spec fn unsupported_format() -> ErrorView {
    ErrorView {
        kind: ErrorKind::InvalidPath,
        message: "Unsupported image format. Allowed: png, jpg, jpeg, gif, webp, svg"@,
    }
}

/// The error with which an upload is refused before anything is asked of
/// the file system, if it is refused: because it is too large, because no
/// workspace is open, or because of its name.
pub open spec fn refusal(workspace: Option<Seq<char>>, filename: Seq<char>, len: nat) -> Option<
    ErrorView,
> {
    if len > MAX_IMAGE_SIZE {
        Some(image_too_large(len))
    } else if workspace is None {
        Some(no_workspace())
    } else if has_separator(sanitized(filename)) {
        Some(separator_in_name())
    } else if !allowed(extension_of(sanitized(filename))) {
        Some(unsupported_format())
    } else {
        None
    }
}

/// When an upload takes place.
#[derive(Debug, Clone, Copy, PartialEq, Eq, Structural)]
pub struct UploadTime {
    /// The year, in the calendar of the upload.
    pub year: i32,
    /// The month of the year, from 1.
    pub month: u32,
    /// Seconds since the start of 1970 (UTC).
    pub timestamp: i64,
}

/// Whether the calendar holds the moment that lies `timestamp` seconds
/// after the start of 1970 (UTC).
pub uninterp spec fn utc_known(timestamp: int) -> bool;

/// The year, in the calendar (UTC), of the moment that lies `timestamp`
/// seconds after the start of 1970.
pub uninterp spec fn utc_year(timestamp: int) -> int;

/// The month of the year, from 1, in the calendar (UTC), of the moment that
/// lies `timestamp` seconds after the start of 1970.
pub uninterp spec fn utc_month(timestamp: int) -> int;

/// `chrono::DateTime::from_timestamp`: whether the calendar holds the
/// moment. The result depends on the number of seconds alone.
#[verifier::external_body]
fn in_calendar(timestamp: i64) -> (known: bool)
    ensures
        known == utc_known(timestamp as int),
{
    DateTime::from_timestamp(timestamp, 0).is_some()
}

/// `chrono::Datelike::year` of the moment: its year in the calendar. The
/// result depends on the number of seconds alone.
#[verifier::external_body]
fn year_at(timestamp: i64) -> (year: i32)
    requires
        utc_known(timestamp as int),
    ensures
        year == utc_year(timestamp as int),
{
    DateTime::from_timestamp(timestamp, 0).unwrap().year()
}

/// `chrono::Datelike::month` of the moment: its month in the calendar. The
/// result depends on the number of seconds alone.
#[verifier::external_body]
fn month_at(timestamp: i64) -> (month: u32)
    requires
        utc_known(timestamp as int),
    ensures
        month == utc_month(timestamp as int),
{
    DateTime::from_timestamp(timestamp, 0).unwrap().month()
}

/// Whether `time` is the moment that lies `timestamp` seconds after the
/// start of 1970, with its year and month in the calendar.
pub open spec fn is_time_at(time: UploadTime, timestamp: i64) -> bool {
    &&& time.timestamp == timestamp
    &&& time.year == utc_year(timestamp as int)
    &&& time.month == utc_month(timestamp as int)
}

/// An upload in progress.
#[derive(Debug)]
pub enum Upload {
    /// The directory for the month is being created.
    Preparing { dir: String, name: String, time: UploadTime, data: Vec<u8> },
    /// Whether the name is taken is awaited.
    Naming { dir: String, name: String, time: UploadTime, data: Vec<u8> },
    /// The image is being written.
    Writing { write: Operation, relative: String },
    /// The upload has ended.
    Finished,
}

/// Whether `out` starts the upload of `data` under the name `filename` into
/// `workspace` at `time`: an upload that is refused ends at once; for any
/// other the directory for the month is created first.
pub open spec fn upload_starts(
    out: (Upload, Step),
    workspace: Option<Seq<char>>,
    filename: Seq<char>,
    data: Seq<u8>,
    time: UploadTime,
) -> bool {
    match refusal(workspace, filename, data.len()) {
        Some(error) => out.0 == Upload::Finished && out.1.fails_with(error),
        None => {
            &&& out.0 matches Upload::Preparing { dir, name, time: t, data: d }
            &&& dir@ == assets_dir(workspace->0, time.year as int, time.month as nat)
            &&& name@ == sanitized(filename)
            &&& t == time
            &&& d@ == data
            &&& out.1 == Step::Ask(FsRequest::CreateDirAll { path: dir })
        },
    }
}

/// Whether an upload in state `before` that is handed `reply` goes on as
/// `after` and wants `step`.
pub open spec fn upload_follows(before: Upload, reply: FsReply, after: Upload, step: Step) -> bool {
    match before {
        Upload::Preparing { dir, name, time, data } => match reply {
            FsReply::Done => {
                &&& after == (Upload::Naming { dir, name, time, data })
                &&& step matches Step::Ask(FsRequest::Exists { path })
                &&& path@ == joined(dir@, name@)
            },
            FsReply::Failed(failure) => after == Upload::Finished && step.fails_as(failure),
            _ => after == Upload::Finished && step.fails_with(unexpected_reply()),
        },
        Upload::Naming { dir, name, time, data } => match reply {
            FsReply::Exists(taken) => {
                let stored = stored_name(name@, taken, time.timestamp as int);
                if temp_path_of(joined(dir@, stored)) is Some {
                    &&& after matches Upload::Writing { write, relative }
                    &&& relative@ == relative_path(time.year as int, time.month as nat, stored)
                    &&& write_starts((write, step), joined(dir@, stored), data@)
                } else {
                    after == Upload::Finished && step.fails_with(no_file_name())
                }
            },
            FsReply::Failed(failure) => after == Upload::Finished && step.fails_as(failure),
            _ => after == Upload::Finished && step.fails_with(unexpected_reply()),
        },
        Upload::Writing { write, relative } => exists|inner: Operation, inner_step: Step|
            #[trigger] follows(write, reply, inner, inner_step) && match inner_step {
                Step::Ask(request) => {
                    &&& after == (Upload::Writing { write: inner, relative })
                    &&& step == inner_step
                },
                Step::Done(Ok(_)) => {
                    &&& after == Upload::Finished
                    &&& step == Step::Done(Ok(Outcome::Text(relative)))
                },
                Step::Done(Err(error)) => after == Upload::Finished && step == inner_step,
            },
        Upload::Finished => after == Upload::Finished && step.fails_with(unexpected_reply()),
    }
}

/// Whether the text holds a slash or a backslash.
fn holds_separator(s: &Vec<char>) -> (found: bool)
    ensures
        found == has_separator(s@),
{
    let mut i: usize = 0;
    while i < s.len()
        invariant
            i <= s.len(),
            forall|j: int| 0 <= j < i ==> !(#[trigger] s@[j] == '/' || s@[j] == '\\'),
        decreases s.len() - i,
    {
        if s[i] == '/' || s[i] == '\\' {
            return true;
        }
        i += 1;
    }
    false
}

/// What stands behind the last dot of the text.
fn tail_after_dot(s: &Vec<char>) -> (out: Vec<char>)
    ensures
        out@ == after_last_dot(s@),
{
    let mut start: usize = s.len();
    while start > 0 && s[start - 1] != '.'
        invariant
            start <= s.len(),
            forall|j: int| start <= j < s.len() ==> s@[j] != '.',
        decreases start,
    {
        start -= 1;
    }
    let mut out: Vec<char> = Vec::new();
    let mut i: usize = start;
    proof {
        lemma_after_last_dot(s@, start as int, start as int);
    }
    while i < s.len()
        invariant
            start <= i <= s.len(),
            start == 0 || s@[start - 1] == '.',
            forall|j: int| start <= j < s.len() ==> s@[j] != '.',
            out@ == after_last_dot(s@.take(i as int)),
        decreases s.len() - i,
    {
        out.push(s[i]);
        proof {
            assert(s@.take(i + 1).drop_last() == s@.take(i as int));
        }
        i += 1;
    }
    proof {
        assert(s@.take(i as int) == s@);
    }
    out
}

/// Text that ends just behind a dot, or is empty, has nothing behind its
/// last dot.
proof fn lemma_after_last_dot(s: Seq<char>, start: int, i: int)
    requires
        0 <= start <= s.len(),
        i == start,
        start == 0 || s[start - 1] == '.',
    ensures
        after_last_dot(s.take(i)) == Seq::<char>::empty(),
{
    if start > 0 {
        assert(s.take(i).last() == s[start - 1]);
    }
}

/// Whether the text is the given word.
fn is_word(text: &Vec<char>, word: &str) -> (same: bool)
    ensures
        same == (text@ == word@),
{
    let w = chars_of(word);
    same_chars(text, &w)
}

/// Whether images with this extension are accepted.
fn is_allowed(extension: &Vec<char>) -> (ok: bool)
    ensures
        ok == allowed(extension@),
{
    is_word(extension, "png") || is_word(extension, "jpg") || is_word(extension, "jpeg") || is_word(
        extension,
        "gif",
    ) || is_word(extension, "webp") || is_word(extension, "svg")
}

/// Whether `s` ends with `suffix` when only its first `end` characters are
/// taken.
fn ends_with(s: &Vec<char>, end: usize, suffix: &Vec<char>) -> (yes: bool)
    requires
        end <= s.len(),
        suffix.len() <= end,
    ensures
        yes == (s@.take(end as int).subrange(end - suffix.len(), end as int) == suffix@),
{
    let base = end - suffix.len();
    let mut i: usize = 0;
    while i < suffix.len()
        invariant
            i <= suffix.len(),
            base + suffix.len() == end,
            end <= s.len(),
            forall|j: int| 0 <= j < i ==> s@[base + j] == suffix@[j],
        decreases suffix.len() - i,
    {
        if s[base + i] != suffix[i] {
            proof {
                assert(s@.take(end as int).subrange(end - suffix.len(), end as int)[i as int]
                    == s@[base + i]);
            }
            return false;
        }
        i += 1;
    }
    proof {
        assert(s@.take(end as int).subrange(end - suffix.len(), end as int) =~= suffix@);
    }
    true
}

/// The text without the suffix at its end, however often the suffix is
/// repeated there.
fn strip_suffix(s: &Vec<char>, suffix: &Vec<char>) -> (out: Vec<char>)
    ensures
        out@ == without_suffix(s@, suffix@),
{
    let mut end: usize = s.len();
    proof {
        assert(s@.take(end as int) == s@);
    }
    while suffix.len() > 0 && end >= suffix.len() && ends_with(s, end, suffix)
        invariant
            end <= s.len(),
            without_suffix(s@, suffix@) == without_suffix(s@.take(end as int), suffix@),
        decreases end,
    {
        proof {
            assert(s@.take(end as int).subrange(0, end - suffix.len()) == s@.take(
                end - suffix.len(),
            ));
        }
        end -= suffix.len();
    }
    let mut out: Vec<char> = Vec::new();
    let mut i: usize = 0;
    while i < end
        invariant
            i <= end <= s.len(),
            out@ == s@.take(i as int),
        decreases end - i,
    {
        out.push(s[i]);
        proof {
            assert(s@.take(i + 1) == s@.take(i as int).push(s@[i as int]));
        }
        i += 1;
    }
    out
}

/// Appends the number, written in decimal and filled with zeros in front up
/// to the given width, to the text.
fn push_padded(out: &mut String, n: u64, width: usize)
    ensures
        final(out)@ == old(out)@ + padded(n as nat, width as nat),
{
    let mut digits = String::new();
    push_decimal(&mut digits, n);
    let count = chars_of(digits.as_str()).len();
    let ghost start = out@;
    let mut filled: usize = 0;
    proof {
        assert(start + zeros(0) == start);
    }
    while count < width && filled < width - count
        invariant
            filled <= width,
            count == decimal(n as nat).len(),
            count < width ==> filled <= width - count,
            count >= width ==> filled == 0,
            out@ == start + zeros(filled as nat),
        decreases width - filled,
    {
        out.push('0');
        proof {
            assert(zeros((filled + 1) as nat) == zeros(filled as nat).push('0'));
        }
        filled += 1;
    }
    out.append(digits.as_str());
    proof {
        if count < width {
            assert(out@ == start + (zeros(filled as nat) + decimal(n as nat)));
        } else {
            assert(zeros(0) + decimal(n as nat) == decimal(n as nat));
            assert(out@ == start + decimal(n as nat));
        }
    }
}

/// Appends the number, written in decimal with a minus sign where it is
/// negative, to the text.
fn push_signed(out: &mut String, n: i64)
    ensures
        final(out)@ == old(out)@ + signed(n as int),
{
    if n < 0 {
        out.push('-');
        let magnitude: u64 = (-(n + 1)) as u64 + 1;
        push_decimal(out, magnitude);
        proof {
            assert(old(out)@.push('-') + decimal(magnitude as nat) == old(out)@ + (seq!['-']
                + decimal((-n) as nat)));
        }
    } else {
        push_decimal(out, n as u64);
    }
}

/// The name of the directory for the uploads of a month.
fn month_dir_name(year: i32, month: u32) -> (out: String)
    ensures
        out@ == month_dir(year as int, month as nat),
{
    let mut out = String::new();
    if year < 0 {
        out.push('-');
        let magnitude: u64 = (-(year as i64)) as u64;
        push_padded(&mut out, magnitude, 3);
    } else {
        push_padded(&mut out, year as u64, 4);
    }
    let ghost front = out@;
    out.push('-');
    push_padded(&mut out, month as u64, 2);
    proof {
        assert(out@ == front + seq!['-'] + padded(month as nat, 2));
        if year < 0 {
            assert(front == seq!['-'] + padded((-year) as nat, 3));
        }
    }
    out
}

/// The error of an upload of `len` bytes, which is too large.
fn refuse_image_size(len: usize) -> (step: Step)
    ensures
        step.fails_with(image_too_large(len as nat)),
{
    let mut message = "Image size ".to_owned();
    push_decimal(&mut message, len as u64);
    message.append(" bytes exceeds maximum of ");
    push_decimal(&mut message, MAX_IMAGE_SIZE as u64);
    message.append(" bytes (10MB)");
    Step::Done(Err(AppError::FileTooLarge(message)))
}

/// The name under which an upload is stored.
fn name_for(name: &str, taken: bool, timestamp: i64) -> (out: String)
    ensures
        out@ == stored_name(name@, taken, timestamp as int),
{
    if !taken {
        return name.to_owned();
    }
    let chars = chars_of(name);
    let tail = tail_after_dot(&chars);
    let extension = to_lowercase(string_of(&tail).as_str());
    let mut suffix: Vec<char> = Vec::new();
    suffix.push('.');
    let mut ext_chars = chars_of(extension.as_str());
    let ghost ext = ext_chars@;
    suffix.append(&mut ext_chars);
    let stem = strip_suffix(&chars, &suffix);
    let mut out = string_of(&stem);
    out.push('-');
    push_signed(&mut out, timestamp);
    out.push('.');
    out.append(extension.as_str());
    proof {
        assert(suffix@ == seq!['.'] + ext);
        assert(out@ == without_suffix(name@, seq!['.'] + ext) + seq!['-'] + signed(
            timestamp as int,
        ) + seq!['.'] + ext);
    }
    out
}

/// Starts the upload of the image `data` under the name `filename` into the
/// workspace, at `time`.
///
/// An image of more than [`MAX_IMAGE_SIZE`] bytes is refused, and so is
/// every image while no workspace is open. The name is sanitized; what
/// stands behind its last dot must be one of `png`, `jpg`, `jpeg`, `gif`,
/// `webp` and `svg`, in any case of letters. The image is stored in the
/// directory for the month of the upload and written atomically; the
/// upload ends with the path of the stored image, relative to the
/// workspace.
pub fn upload_image(workspace: Option<String>, filename: &str, data: Vec<u8>, time: UploadTime) -> (out:
    (Upload, Step))
    ensures
        upload_starts(
            out,
            match workspace {
                Some(w) => Some(w@),
                None => None,
            },
            filename@,
            data@,
            time,
        ),
{
    if data.len() > MAX_IMAGE_SIZE {
        return (Upload::Finished, refuse_image_size(data.len()));
    }
    let workspace = match workspace {
        Some(w) => w,
        None => {
            return (
                Upload::Finished,
                Step::Done(Err(AppError::InvalidPath("No workspace open".to_owned()))),
            );
        },
    };
    let name = sanitize_filename(filename);
    let chars = chars_of(name.as_str());
    if holds_separator(&chars) {
        return (
            Upload::Finished,
            Step::Done(
                Err(AppError::InvalidPath("Filename cannot contain path separators".to_owned())),
            ),
        );
    }
    let tail = tail_after_dot(&chars);
    let extension = to_lowercase(string_of(&tail).as_str());
    if !is_allowed(&chars_of(extension.as_str())) {
        return (
            Upload::Finished,
            Step::Done(
                Err(
                    AppError::InvalidPath(
                        "Unsupported image format. Allowed: png, jpg, jpeg, gif, webp, svg".to_owned(),
                    ),
                ),
            ),
        );
    }
    let month = month_dir_name(time.year, time.month);
    let assets = join(workspace.as_str(), "assets");
    let dir = join(assets.as_str(), month.as_str());
    let asked = dir.clone();
    (Upload::Preparing { dir, name, time, data }, Step::Ask(FsRequest::CreateDirAll { path: asked }))
}

/// Starts the upload of the image `data` under the name `filename` into the
/// workspace, at the moment that lies `timestamp` seconds after the start
/// of 1970. A moment that the calendar does not hold starts nothing.
pub fn upload_image_at(workspace: Option<String>, filename: &str, data: Vec<u8>, timestamp: i64) -> (out:
    Option<(Upload, Step)>)
    ensures
        out is Some == utc_known(timestamp as int),
        out matches Some(start) ==> exists|time: UploadTime|
            #![trigger is_time_at(time, timestamp)]
            is_time_at(time, timestamp) && upload_starts(
                start,
                match workspace {
                    Some(w) => Some(w@),
                    None => None,
                },
                filename@,
                data@,
                time,
            ),
{
    if !in_calendar(timestamp) {
        return None;
    }
    let time = UploadTime { year: year_at(timestamp), month: month_at(timestamp), timestamp };
    assert(is_time_at(time, timestamp));
    Some(upload_image(workspace, filename, data, time))
}

impl Upload {
    /// Takes in the reply to what the upload asked, and moves on.
    pub fn advance(self, reply: FsReply) -> (out: (Upload, Step))
        ensures
            upload_follows(self, reply, out.0, out.1),
    {
        match self {
            Upload::Preparing { dir, name, time, data } => match reply {
                FsReply::Done => {
                    let path = join(dir.as_str(), name.as_str());
                    (Upload::Naming { dir, name, time, data }, Step::Ask(FsRequest::Exists { path }))
                },
                FsReply::Failed(failure) => (Upload::Finished, fail(failure)),
                _ => (Upload::Finished, reject_reply()),
            },
            Upload::Naming { dir, name, time, data } => match reply {
                FsReply::Exists(taken) => {
                    let stored = name_for(name.as_str(), taken, time.timestamp);
                    let month = month_dir_name(time.year, time.month);
                    let mut relative = concat("assets/", month.as_str());
                    relative.push('/');
                    relative.append(stored.as_str());
                    let target = join(dir.as_str(), stored.as_str());
                    proof {
                        assert(relative@ == relative_path(
                            time.year as int,
                            time.month as nat,
                            stored@,
                        ));
                    }
                    let (write, step) = write_file_binary(target.as_str(), data);
                    match step {
                        Step::Ask(request) => (
                            Upload::Writing { write, relative },
                            Step::Ask(request),
                        ),
                        Step::Done(result) => (Upload::Finished, Step::Done(result)),
                    }
                },
                FsReply::Failed(failure) => (Upload::Finished, fail(failure)),
                _ => (Upload::Finished, reject_reply()),
            },
            Upload::Writing { write, relative } => {
                let (inner, inner_step) = write.advance(reply);
                match inner_step {
                    Step::Ask(request) => (
                        Upload::Writing { write: inner, relative },
                        Step::Ask(request),
                    ),
                    Step::Done(Ok(_)) => (Upload::Finished, Step::Done(Ok(Outcome::Text(relative)))),
                    Step::Done(Err(error)) => (Upload::Finished, Step::Done(Err(error))),
                }
            },
            Upload::Finished => (Upload::Finished, reject_reply()),
        }
    }
}

} // verus!
