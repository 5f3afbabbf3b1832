//! The last session: the address a client last connected to and the size
//! of its window then, kept as one line of text, `address,width,height`.
//!
//! The two sizes are numbers, carried as the text that stands in the line.

use vstd::prelude::*;
use vstd::string::StrSliceExecFns;
use vstd::string::StringExecFns;
use crate::size::{is_mantissa, is_size, is_size_text, lemma_number_has_no_comma};
use crate::text::chars_of;

verus! {

/// The address a client last connected to, and the width and height of its
/// window then, each as decimal text.
#[derive(Debug)]
pub struct LastSession {
    pub address: String,
    pub screen_dimension: (String, String),
}

/// What a last-session record holds.
pub struct LastSessionView {
    pub address: Seq<char>,
    pub width: Seq<char>,
    pub height: Seq<char>,
}

/// Why a line of text gave no last session.
#[derive(Clone, Copy, Debug, PartialEq, Eq, Structural)]
pub enum LastSessionError {
    /// The line has fewer than three fields.
    MissingField,
    /// The width or the height is empty.
    EmptySize,
    /// The width or the height is text that is no number.
    InvalidSize,
}

/// What is wrong with a size that is no number: it is empty, or it is other
/// text.
pub open spec fn size_fault(size: Seq<char>) -> LastSessionError {
    if size.len() == 0 {
        LastSessionError::EmptySize
    } else {
        LastSessionError::InvalidSize
    }
}

impl LastSessionView {
    /// What holds of every record that was read from a line: the address
    /// holds no comma, and width and height are numbers.
    pub open spec fn well_formed(self) -> bool {
        &&& forall|i: int| 0 <= i < self.address.len() ==> self.address[i] != ','
        &&& is_size_text(self.width)
        &&& is_size_text(self.height)
    }
}

impl View for LastSession {
    type V = LastSessionView;

    open spec fn view(&self) -> LastSessionView {
        LastSessionView {
            address: self.address@,
            width: self.screen_dimension.0@,
            height: self.screen_dimension.1@,
        }
    }
}

impl Clone for LastSession {
    fn clone(&self) -> (r: LastSession)
        ensures
            r@ == self@,
    {
        LastSession {
            address: self.address.clone(),
            screen_dimension: (self.screen_dimension.0.clone(), self.screen_dimension.1.clone()),
        }
    }
}

/// The record of a client that never connected: the local endpoint and a
/// window of 900 by 900.
pub open spec fn default_last_session() -> LastSessionView {
    LastSessionView { address: "localhost:8111"@, width: "900"@, height: "900"@ }
}

impl Default for LastSession {
    fn default() -> (r: LastSession)
        ensures
            r@ == default_last_session(),
    {
        LastSession {
            address: "localhost:8111".to_owned(),
            screen_dimension: ("900".to_owned(), "900".to_owned()),
        }
    }
}

/// Where the field that starts at `from` ends: at the first comma at or
/// after `from`, or at the end of the line.
pub open spec fn field_end(line: Seq<char>, from: int) -> int
    decreases line.len() - from,
{
    if from >= line.len() {
        line.len() as int
    } else if line[from] == ',' {
        from
    } else {
        field_end(line, from + 1)
    }
}

/// The line of a record: its three fields with a comma between them.
pub open spec fn session_line(s: LastSessionView) -> Seq<char> {
    s.address + seq![','] + s.width + seq![','] + s.height
}

/// The record of a line: its first three fields. A line with fewer fields
/// has none, and neither has a line whose second or third field is no
/// number: the fault is that of the width, or else that of the height.
/// Fields after the third are passed over.
pub open spec fn line_session(line: Seq<char>) -> Result<LastSessionView, LastSessionError> {
    let address_end = field_end(line, 0);
    let width_end = field_end(line, address_end + 1);
    let height_end = field_end(line, width_end + 1);
    let width = line.subrange(address_end + 1, width_end);
    let height = line.subrange(width_end + 1, height_end);
    if address_end >= line.len() || width_end >= line.len() {
        Err(LastSessionError::MissingField)
    } else if !is_size_text(width) {
        Err(size_fault(width))
    } else if !is_size_text(height) {
        Err(size_fault(height))
    } else {
        Ok(LastSessionView { address: line.subrange(0, address_end), width, height })
    }
}

/// The record to start from, given what the file of the last session holds,
/// if it could be read: the record of its line, and the default where there
/// is no file or its line has no record.
pub open spec fn restored_session(content: Option<Seq<char>>) -> LastSessionView {
    match content {
        Some(line) => match line_session(line) {
            Ok(s) => s,
            Err(_) => default_last_session(),
        },
        None => default_last_session(),
    }
}

/// A field ends where the first comma stands, or at the end of a line that
/// has none.
pub proof fn lemma_field_end(line: Seq<char>, from: int, end: int)
    requires
        0 <= from <= end <= line.len(),
        forall|k: int| from <= k < end ==> line[k] != ',',
        end == line.len() || line[end] == ',',
    ensures
        field_end(line, from) == end,
    decreases end - from,
{
    if from < end {
        lemma_field_end(line, from + 1, end);
    }
}

fn next_comma(line: &Vec<char>, from: usize) -> (end: usize)
    requires
        from <= line.len(),
    ensures
        end == field_end(line@, from as int),
        from <= end <= line.len(),
{
    let mut end = from;
    while end < line.len() && line[end] != ','
        invariant
            from <= end <= line.len(),
            forall|k: int| from <= k < end ==> line@[k] != ',',
        decreases line.len() - end,
    {
        end += 1;
    }
    proof {
        lemma_field_end(line@, from as int, end as int);
    }
    end
}

impl LastSession {
    /// The record as one line of text: address, width and height with a
    /// comma between them.
    pub fn convert_to_string(&self) -> (line: String)
        ensures
            line@ == session_line(self@),
    {
        proof {
            reveal_strlit(",");
            assert(","@ =~= seq![',']);
        }
        let mut line = String::new();
        line.append(self.address.as_str());
        line.append(",");
        line.append(self.screen_dimension.0.as_str());
        line.append(",");
        line.append(self.screen_dimension.1.as_str());
        assert(line@ =~= session_line(self@));
        line
    }
}

fn size_fault_of(size: &Vec<char>) -> (r: LastSessionError)
    ensures
        r == size_fault(size@),
{
    if size.len() == 0 {
        LastSessionError::EmptySize
    } else {
        LastSessionError::InvalidSize
    }
}

/// Reads a record from one line of text.
///
/// The first three fields of the line, parted by commas, are the address,
/// the width and the height. A line with fewer than three fields gives
/// `MissingField`; one whose width or height is no number gives `EmptySize`
/// or `InvalidSize`.
pub fn string_to_last_session(input: String) -> (r: Result<LastSession, LastSessionError>)
    ensures
        match r {
            Ok(s) => line_session(input@) == Ok::<LastSessionView, LastSessionError>(s@),
            Err(e) => line_session(input@) == Err::<LastSessionView, LastSessionError>(e),
        },
{
    let text = input.as_str();
    let line = chars_of(text);
    let address_end = next_comma(&line, 0);
    if address_end >= line.len() {
        return Err(LastSessionError::MissingField);
    }
    let width_end = next_comma(&line, address_end + 1);
    if width_end >= line.len() {
        return Err(LastSessionError::MissingField);
    }
    let height_end = next_comma(&line, width_end + 1);
    let width = text.substring_char(address_end + 1, width_end);
    let height = text.substring_char(width_end + 1, height_end);
    let width_text = chars_of(width);
    if !is_size(&width_text) {
        return Err(size_fault_of(&width_text));
    }
    let height_text = chars_of(height);
    if !is_size(&height_text) {
        return Err(size_fault_of(&height_text));
    }
    let address = text.substring_char(0, address_end).to_owned();
    Ok(LastSession { address, screen_dimension: (width.to_owned(), height.to_owned()) })
}

/// The record to start from, given what the file of the last session holds,
/// if it could be read. Never fails: where there is no file, or its line has
/// no record, the record is the default.
pub fn last_session_or_default(content: Option<String>) -> (r: LastSession)
    ensures
        r@ == restored_session(
            match content {
                Some(line) => Some(line@),
                None => None,
            },
        ),
{
    match content {
        Some(line) => match string_to_last_session(line) {
            Ok(session) => session,
            Err(_) => LastSession::default(),
        },
        None => LastSession::default(),
    }
}

/// The default record is one that a line can hold.
pub proof fn lemma_default_is_well_formed()
    ensures
        default_last_session().well_formed(),
{
    reveal_strlit("localhost:8111");
    reveal_strlit("900");
    let size = "900"@;
    assert(size.len() == 3 && size[0] == '9' && size[1] == '0' && size[2] == '0');
    assert(is_mantissa(size));
}

/// A record that is read from a line is well formed.
pub proof fn lemma_line_session_well_formed(line: Seq<char>)
    ensures
        line_session(line) matches Ok(s) ==> s.well_formed(),
{
    lemma_field_within(line, 0);
}

/// A field holds no comma, and lies within the line.
pub proof fn lemma_field_within(line: Seq<char>, from: int)
    requires
        0 <= from <= line.len(),
    ensures
        from <= field_end(line, from) <= line.len(),
        forall|k: int| from <= k < field_end(line, from) ==> line[k] != ',',
    decreases line.len() - from,
{
    if from < line.len() && line[from] != ',' {
        lemma_field_within(line, from + 1);
    }
}

/// Reading the line of a record gives the record back, as long as its
/// address holds no comma and its width and height are numbers.
pub proof fn lemma_session_line_round_trip(s: LastSessionView)
    requires
        s.well_formed(),
    ensures
        line_session(session_line(s)) == Ok::<LastSessionView, LastSessionError>(s),
{
    lemma_number_has_no_comma(s.width);
    lemma_number_has_no_comma(s.height);
    let line = session_line(s);
    let a = s.address.len() as int;
    let w = s.width.len() as int;
    let h = s.height.len() as int;
    assert(line.len() == a + w + h + 2);
    assert forall|k: int| 0 <= k < a implies line[k] != ',' by {
        assert(line[k] == s.address[k]);
    }
    assert(line[a] == ',');
    lemma_field_end(line, 0, a);
    assert forall|k: int| a + 1 <= k < a + 1 + w implies line[k] != ',' by {
        assert(line[k] == s.width[k - a - 1]);
    }
    assert(line[a + 1 + w] == ',');
    lemma_field_end(line, a + 1, a + 1 + w);
    assert forall|k: int| a + w + 2 <= k < a + w + 2 + h implies line[k] != ',' by {
        assert(line[k] == s.height[k - a - w - 2]);
    }
    lemma_field_end(line, a + w + 2, a + w + 2 + h);
    assert(line.subrange(0, a) =~= s.address);
    assert(line.subrange(a + 1, a + 1 + w) =~= s.width);
    assert(line.subrange(a + w + 2, a + w + 2 + h) =~= s.height);
}

} // verus!
