//! The session codec: a snapshot record as one JSON document, and back.
//!
//! The document is an object with one member for each field of the record,
//! under the field's name, in the order of the fields. Reading looks the
//! members up by name, so members that it does not know are passed over.

use vstd::prelude::*;
use crate::json::{
    array_value, as_array, as_i64, as_number, as_str, as_u64, at_end, json_i64, json_member,
    json_number, json_of, json_parse, json_string, json_text, json_u64, map_insert, map_new,
    member, number_from_i64, number_from_u64, number_of, number_value, object_value, parse,
    render, signed_number, text_value, values_of, without_nul, Json, JsonNumber, Parsed,
};
use crate::packet::{texts, ServerInfo, ServerInfoView};
use vstd::string::is_ascii_spec_bytes;

verus! {

/// Why a run of bytes gave no snapshot.
#[derive(Clone, Copy, Debug, PartialEq, Eq, Structural)]
pub enum DecodeError {
    /// The bytes are no document of the expected shape, however they go on.
    Malformed,
    /// The bytes stop before the document does: more may complete them.
    Incomplete,
}

/// The strings of an array of strings; `None` for anything else.
pub open spec fn json_texts(j: Json) -> Option<Seq<Seq<char>>> {
    match j {
        Json::Array(items) => if forall|i: int| 0 <= i < items.len() ==> (#[trigger] items[i]) is Text {
            Some(Seq::new(items.len(), |i: int| items[i]->Text_0))
        } else {
            None
        },
        _ => None,
    }
}

/// The array of the given strings.
pub open spec fn text_array(items: Seq<Seq<char>>) -> Json {
    Json::Array(Seq::new(items.len(), |i: int| Json::Text(items[i])))
}

/// The member under `key` as a signed integer.
pub open spec fn field_i64(j: Json, key: Seq<char>) -> Option<i64> {
    match json_member(j, key) {
        Some(m) => json_i64(m),
        None => None,
    }
}

/// The member under `key` as an unsigned integer.
pub open spec fn field_u64(j: Json, key: Seq<char>) -> Option<u64> {
    match json_member(j, key) {
        Some(m) => json_u64(m),
        None => None,
    }
}

/// The member under `key` as a count that fits the machine's word.
pub open spec fn field_count(j: Json, key: Seq<char>) -> Option<usize> {
    match field_u64(j, key) {
        Some(u) => if u <= usize::MAX {
            Some(u as usize)
        } else {
            None
        },
        None => None,
    }
}

/// The member under `key` as a number.
pub open spec fn field_number(j: Json, key: Seq<char>) -> Option<JsonNumber> {
    match json_member(j, key) {
        Some(m) => json_number(m),
        None => None,
    }
}

/// The member under `key` as a string.
pub open spec fn field_text(j: Json, key: Seq<char>) -> Option<Seq<char>> {
    match json_member(j, key) {
        Some(m) => json_string(m),
        None => None,
    }
}

/// The member under `key` as a list of strings.
pub open spec fn field_texts(j: Json, key: Seq<char>) -> Option<Seq<Seq<char>>> {
    match json_member(j, key) {
        Some(m) => json_texts(m),
        None => None,
    }
}

/// Whether a document has every member of a snapshot, each of its kind.
pub open spec fn is_snapshot_document(j: Json) -> bool {
    &&& field_i64(j, "date"@) is Some
    &&& field_texts(j, "disks"@) is Some
    &&& field_texts(j, "net_interfaces"@) is Some
    &&& field_texts(j, "components"@) is Some
    &&& field_u64(j, "total_ram"@) is Some
    &&& field_u64(j, "used_memory"@) is Some
    &&& field_text(j, "system_name"@) is Some
    &&& field_text(j, "kernel_version"@) is Some
    &&& field_text(j, "os_version"@) is Some
    &&& field_text(j, "host_name"@) is Some
    &&& field_count(j, "total_cpus"@) is Some
    &&& field_texts(j, "cpus"@) is Some
    &&& field_number(j, "avg_cpu_usage"@) is Some
}

/// The snapshot that a document holds; `None` for a document that lacks a
/// member or holds one of another kind.
pub open spec fn document_snapshot(j: Json) -> Option<ServerInfoView> {
    if is_snapshot_document(j) {
        Some(
            ServerInfoView {
                date: field_i64(j, "date"@)->0,
                disks: field_texts(j, "disks"@)->0,
                net_interfaces: field_texts(j, "net_interfaces"@)->0,
                components: field_texts(j, "components"@)->0,
                total_ram: field_u64(j, "total_ram"@)->0,
                used_memory: field_u64(j, "used_memory"@)->0,
                system_name: field_text(j, "system_name"@)->0,
                kernel_version: field_text(j, "kernel_version"@)->0,
                os_version: field_text(j, "os_version"@)->0,
                host_name: field_text(j, "host_name"@)->0,
                total_cpus: field_count(j, "total_cpus"@)->0,
                cpus: field_texts(j, "cpus"@)->0,
                avg_cpu_usage: field_number(j, "avg_cpu_usage"@)->0,
            },
        )
    } else {
        None
    }
}

/// The document of a snapshot: an object with exactly the thirteen members.
pub open spec fn snapshot_document(s: ServerInfoView) -> Json {
    let members = Map::<Seq<char>, Json>::empty()
        .insert("date"@, Json::Number(signed_number(s.date)))
        .insert("disks"@, text_array(s.disks))
        .insert("net_interfaces"@, text_array(s.net_interfaces))
        .insert("components"@, text_array(s.components))
        .insert("total_ram"@, Json::Number(JsonNumber::Unsigned(s.total_ram)))
        .insert("used_memory"@, Json::Number(JsonNumber::Unsigned(s.used_memory)))
        .insert("system_name"@, Json::Text(s.system_name))
        .insert("kernel_version"@, Json::Text(s.kernel_version))
        .insert("os_version"@, Json::Text(s.os_version))
        .insert("host_name"@, Json::Text(s.host_name))
        .insert("total_cpus"@, Json::Number(JsonNumber::Unsigned(s.total_cpus as u64)))
        .insert("cpus"@, text_array(s.cpus))
        .insert("avg_cpu_usage"@, Json::Number(s.avg_cpu_usage));
    Json::Object(members)
}

/// What decoding makes of a run of bytes: the snapshot of a complete
/// document of the expected shape, `Incomplete` for bytes that stop too
/// early, `Malformed` for all others.
pub open spec fn decoded(bytes: Seq<u8>) -> Result<ServerInfoView, DecodeError> {
    match json_parse(bytes) {
        Parsed::Document(j) => match document_snapshot(j) {
            Some(s) => Ok(s),
            None => Err(DecodeError::Malformed),
        },
        Parsed::Truncated => Err(DecodeError::Incomplete),
        Parsed::Invalid => Err(DecodeError::Malformed),
    }
}

/// The bytes of a text of plain characters, one byte for each.
pub open spec fn ascii_bytes(text: Seq<char>) -> Seq<u8> {
    Seq::new(text.len(), |i: int| text[i] as u8)
}

/// Whether a name can be written between quotes as it is: its characters
/// are letters, digits or the underscore.
pub open spec fn is_plain_name(name: Seq<char>) -> bool {
    forall|i: int| 0 <= i < name.len() ==> {
        let c = #[trigger] name[i];
        'a' <= c <= 'z' || 'A' <= c <= 'Z' || '0' <= c <= '9' || c == '_'
    }
}

/// One member of a document: its name between quotes, a colon, and the
/// JSON text of its value.
pub open spec fn member_text(name: Seq<char>, value: Json) -> Seq<u8> {
    seq![0x22u8] + ascii_bytes(name) + seq![0x22u8, 0x3au8] + json_text(value)
}

/// The bytes of a snapshot's document: between braces its thirteen
/// members, in the order of the record's fields, with a comma between them.
pub open spec fn encoded(s: ServerInfoView) -> Seq<u8> {
    seq![0x7bu8]
        + member_text("date"@, Json::Number(signed_number(s.date))) + seq![0x2cu8]
        + member_text("disks"@, text_array(s.disks)) + seq![0x2cu8]
        + member_text("net_interfaces"@, text_array(s.net_interfaces)) + seq![0x2cu8]
        + member_text("components"@, text_array(s.components)) + seq![0x2cu8]
        + member_text("total_ram"@, Json::Number(JsonNumber::Unsigned(s.total_ram))) + seq![0x2cu8]
        + member_text("used_memory"@, Json::Number(JsonNumber::Unsigned(s.used_memory))) + seq![0x2cu8]
        + member_text("system_name"@, Json::Text(s.system_name)) + seq![0x2cu8]
        + member_text("kernel_version"@, Json::Text(s.kernel_version)) + seq![0x2cu8]
        + member_text("os_version"@, Json::Text(s.os_version)) + seq![0x2cu8]
        + member_text("host_name"@, Json::Text(s.host_name)) + seq![0x2cu8]
        + member_text("total_cpus"@, Json::Number(JsonNumber::Unsigned(s.total_cpus as u64))) + seq![0x2cu8]
        + member_text("cpus"@, text_array(s.cpus)) + seq![0x2cu8]
        + member_text("avg_cpu_usage"@, Json::Number(s.avg_cpu_usage))
        + seq![0x7du8]
}

fn read_i64(v: &serde_json::Value, key: &str) -> (r: Option<i64>)
    ensures
        r == field_i64(json_of(*v), key@),
{
    match member(v, key) {
        Some(m) => as_i64(m),
        None => None,
    }
}

fn read_u64(v: &serde_json::Value, key: &str) -> (r: Option<u64>)
    ensures
        r == field_u64(json_of(*v), key@),
{
    match member(v, key) {
        Some(m) => as_u64(m),
        None => None,
    }
}

fn read_count(v: &serde_json::Value, key: &str) -> (r: Option<usize>)
    ensures
        r == field_count(json_of(*v), key@),
{
    match read_u64(v, key) {
        Some(u) => if u <= usize::MAX as u64 {
            Some(u as usize)
        } else {
            None
        },
        None => None,
    }
}

fn read_number(v: &serde_json::Value, key: &str) -> (r: Option<serde_json::Number>)
    ensures
        match r {
            Some(n) => field_number(json_of(*v), key@) == Some(number_of(n)),
            None => field_number(json_of(*v), key@) is None,
        },
{
    match member(v, key) {
        Some(m) => match as_number(m) {
            Some(n) => Some(n.clone()),
            None => None,
        },
        None => None,
    }
}

fn read_text(v: &serde_json::Value, key: &str) -> (r: Option<String>)
    ensures
        match r {
            Some(s) => field_text(json_of(*v), key@) == Some(s@),
            None => field_text(json_of(*v), key@) is None,
        },
{
    match member(v, key) {
        Some(m) => match as_str(m) {
            Some(s) => Some(s.to_owned()),
            None => None,
        },
        None => None,
    }
}

fn read_texts(v: &serde_json::Value, key: &str) -> (r: Option<Vec<String>>)
    ensures
        match r {
            Some(list) => field_texts(json_of(*v), key@) == Some(texts(list@)),
            None => field_texts(json_of(*v), key@) is None,
        },
{
    let m = match member(v, key) {
        Some(m) => m,
        None => { return None; },
    };
    let items = match as_array(m) {
        Some(items) => items,
        None => { return None; },
    };
    let ghost held = values_of(items@);
    let mut list: Vec<String> = Vec::new();
    let mut i: usize = 0;
    while i < items.len()
        invariant
            i <= items.len(),
            list.len() == i,
            held == values_of(items@),
            json_member(json_of(*v), key@) == Some(json_of(*m)),
            json_of(*m) == Json::Array(held),
            forall|k: int| 0 <= k < i ==> held[k] == Json::Text(#[trigger] list@[k]@),
        decreases items.len() - i,
    {
        match as_str(&items[i]) {
            Some(s) => {
                list.push(s.to_owned());
            },
            None => {
                assert(!(held[i as int] is Text));
                return None;
            },
        }
        i += 1;
    }
    proof {
        assert forall|k: int| 0 <= k < held.len() implies (#[trigger] held[k]) is Text by {
            assert(held[k] == Json::Text(list@[k]@));
        }
        assert(json_texts(json_of(*m))->0 =~= texts(list@));
    }
    Some(list)
}

/// Reads a snapshot out of a JSON value.
///
/// Gives the snapshot of a value that is an object with every member of a
/// snapshot, each of its kind, whatever other members it has; every other
/// value is `Malformed`.
pub fn server_info_from_value(v: &serde_json::Value) -> (r: Result<ServerInfo, DecodeError>)
    ensures
        match r {
            Ok(s) => document_snapshot(json_of(*v)) == Some(s@),
            Err(e) => e == DecodeError::Malformed && document_snapshot(json_of(*v)) is None,
        },
{
    let date = match read_i64(v, "date") {
        Some(x) => x,
        None => { return Err(DecodeError::Malformed); },
    };
    let disks = match read_texts(v, "disks") {
        Some(x) => x,
        None => { return Err(DecodeError::Malformed); },
    };
    let net_interfaces = match read_texts(v, "net_interfaces") {
        Some(x) => x,
        None => { return Err(DecodeError::Malformed); },
    };
    let components = match read_texts(v, "components") {
        Some(x) => x,
        None => { return Err(DecodeError::Malformed); },
    };
    let total_ram = match read_u64(v, "total_ram") {
        Some(x) => x,
        None => { return Err(DecodeError::Malformed); },
    };
    let used_memory = match read_u64(v, "used_memory") {
        Some(x) => x,
        None => { return Err(DecodeError::Malformed); },
    };
    let system_name = match read_text(v, "system_name") {
        Some(x) => x,
        None => { return Err(DecodeError::Malformed); },
    };
    let kernel_version = match read_text(v, "kernel_version") {
        Some(x) => x,
        None => { return Err(DecodeError::Malformed); },
    };
    let os_version = match read_text(v, "os_version") {
        Some(x) => x,
        None => { return Err(DecodeError::Malformed); },
    };
    let host_name = match read_text(v, "host_name") {
        Some(x) => x,
        None => { return Err(DecodeError::Malformed); },
    };
    let total_cpus = match read_count(v, "total_cpus") {
        Some(x) => x,
        None => { return Err(DecodeError::Malformed); },
    };
    let cpus = match read_texts(v, "cpus") {
        Some(x) => x,
        None => { return Err(DecodeError::Malformed); },
    };
    let avg_cpu_usage = match read_number(v, "avg_cpu_usage") {
        Some(x) => x,
        None => { return Err(DecodeError::Malformed); },
    };
    Ok(
        ServerInfo {
            date,
            disks,
            net_interfaces,
            components,
            total_ram,
            used_memory,
            system_name,
            kernel_version,
            os_version,
            host_name,
            total_cpus,
            cpus,
            avg_cpu_usage,
        },
    )
}

/// Reads a snapshot out of a run of bytes.
///
/// Never fails but by its result: every run of bytes gives a snapshot,
/// `Incomplete` or `Malformed`.
pub fn decode(bytes: &[u8]) -> (r: Result<ServerInfo, DecodeError>)
    ensures
        match r {
            Ok(s) => decoded(bytes@) == Ok::<ServerInfoView, DecodeError>(s@),
            Err(e) => decoded(bytes@) == Err::<ServerInfoView, DecodeError>(e),
        },
{
    match parse(bytes) {
        Ok(v) => server_info_from_value(&v),
        Err(e) => if at_end(&e) {
            Err(DecodeError::Incomplete)
        } else {
            Err(DecodeError::Malformed)
        },
    }
}

fn texts_value(items: &Vec<String>) -> (r: serde_json::Value)
    ensures
        json_of(r) == text_array(texts(items@)),
{
    let mut values: Vec<serde_json::Value> = Vec::new();
    let mut i: usize = 0;
    while i < items.len()
        invariant
            i <= items.len(),
            values.len() == i,
            forall|k: int| 0 <= k < i ==> json_of(#[trigger] values@[k]) == Json::Text(items@[k]@),
        decreases items.len() - i,
    {
        values.push(text_value(items[i].clone()));
        i += 1;
    }
    proof {
        assert(values_of(values@) =~= Seq::new(
            texts(items@).len(),
            |k: int| Json::Text(texts(items@)[k]),
        ));
    }
    array_value(values)
}

/// Writes a snapshot as a JSON value: the object of its thirteen members.
pub fn server_info_to_value(s: &ServerInfo) -> (r: serde_json::Value)
    ensures
        json_of(r) == snapshot_document(s@),
{
    let mut members = map_new();
    map_insert(&mut members, "date".to_owned(), number_value(number_from_i64(s.date)));
    map_insert(&mut members, "disks".to_owned(), texts_value(&s.disks));
    map_insert(&mut members, "net_interfaces".to_owned(), texts_value(&s.net_interfaces));
    map_insert(&mut members, "components".to_owned(), texts_value(&s.components));
    map_insert(&mut members, "total_ram".to_owned(), number_value(number_from_u64(s.total_ram)));
    map_insert(&mut members, "used_memory".to_owned(), number_value(number_from_u64(s.used_memory)));
    map_insert(&mut members, "system_name".to_owned(), text_value(s.system_name.clone()));
    map_insert(&mut members, "kernel_version".to_owned(), text_value(s.kernel_version.clone()));
    map_insert(&mut members, "os_version".to_owned(), text_value(s.os_version.clone()));
    map_insert(&mut members, "host_name".to_owned(), text_value(s.host_name.clone()));
    map_insert(&mut members, "total_cpus".to_owned(), number_value(number_from_u64(s.total_cpus as u64)));
    map_insert(&mut members, "cpus".to_owned(), texts_value(&s.cpus));
    map_insert(&mut members, "avg_cpu_usage".to_owned(), number_value(s.avg_cpu_usage.clone()));
    object_value(members)
}

/// The names of the members are plain.
proof fn lemma_names_are_plain()
    ensures
        is_plain_name("date"@),
        is_plain_name("disks"@),
        is_plain_name("net_interfaces"@),
        is_plain_name("components"@),
        is_plain_name("total_ram"@),
        is_plain_name("used_memory"@),
        is_plain_name("system_name"@),
        is_plain_name("kernel_version"@),
        is_plain_name("os_version"@),
        is_plain_name("host_name"@),
        is_plain_name("total_cpus"@),
        is_plain_name("cpus"@),
        is_plain_name("avg_cpu_usage"@),
{
    reveal_strlit("date");
    reveal_strlit("disks");
    reveal_strlit("net_interfaces");
    reveal_strlit("components");
    reveal_strlit("total_ram");
    reveal_strlit("used_memory");
    reveal_strlit("system_name");
    reveal_strlit("kernel_version");
    reveal_strlit("os_version");
    reveal_strlit("host_name");
    reveal_strlit("total_cpus");
    reveal_strlit("cpus");
    reveal_strlit("avg_cpu_usage");
}

fn push_member(out: &mut Vec<u8>, name: &str, value: serde_json::Value)
    requires
        is_plain_name(name@),
    ensures
        final(out)@ == old(out)@ + member_text(name@, json_of(value)),
        without_nul(old(out)@) ==> without_nul(final(out)@),
{
    broadcast use is_ascii_spec_bytes;

    let ghost start = out@;
    let letters = name.as_bytes();
    assert(letters@ =~= ascii_bytes(name@)) by {
        assert(vstd::utf8::is_ascii_chars(name@));
        assert(vstd::string::is_ascii(name));
    }
    out.push(0x22u8);
    out.extend_from_slice(letters);
    out.push(0x22u8);
    out.push(0x3au8);
    let ghost head = start + seq![0x22u8] + ascii_bytes(name@) + seq![0x22u8, 0x3au8];
    assert(out@ =~= head);
    match render(&value) {
        Ok(text) => {
            out.extend_from_slice(text.as_slice());
            assert(out@ =~= head + json_text(json_of(value)));
        },
        Err(_) => {},
    }
    assert(out@ =~= start + member_text(name@, json_of(value)));
}

/// Writes a snapshot as the bytes of one JSON document: its members in the
/// order of the record's fields.
///
/// The bytes hold no NUL, so a reader that leaves padding out leaves the
/// document whole.
pub fn encode(s: &ServerInfo) -> (bytes: Vec<u8>)
    ensures
        bytes@ == encoded(s@),
        without_nul(bytes@),
{
    proof {
        lemma_names_are_plain();
    }
    let mut out: Vec<u8> = Vec::new();
    out.push(0x7bu8);
    push_member(&mut out, "date", number_value(number_from_i64(s.date)));
    out.push(0x2cu8);
    push_member(&mut out, "disks", texts_value(&s.disks));
    out.push(0x2cu8);
    push_member(&mut out, "net_interfaces", texts_value(&s.net_interfaces));
    out.push(0x2cu8);
    push_member(&mut out, "components", texts_value(&s.components));
    out.push(0x2cu8);
    push_member(&mut out, "total_ram", number_value(number_from_u64(s.total_ram)));
    out.push(0x2cu8);
    push_member(&mut out, "used_memory", number_value(number_from_u64(s.used_memory)));
    out.push(0x2cu8);
    push_member(&mut out, "system_name", text_value(s.system_name.clone()));
    out.push(0x2cu8);
    push_member(&mut out, "kernel_version", text_value(s.kernel_version.clone()));
    out.push(0x2cu8);
    push_member(&mut out, "os_version", text_value(s.os_version.clone()));
    out.push(0x2cu8);
    push_member(&mut out, "host_name", text_value(s.host_name.clone()));
    out.push(0x2cu8);
    push_member(&mut out, "total_cpus", number_value(number_from_u64(s.total_cpus as u64)));
    out.push(0x2cu8);
    push_member(&mut out, "cpus", texts_value(&s.cpus));
    out.push(0x2cu8);
    push_member(&mut out, "avg_cpu_usage", number_value(s.avg_cpu_usage.clone()));
    out.push(0x7du8);
    assert(out@ =~= encoded(s@));
    out
}

/// Reading the strings of an array of strings gives those strings.
pub proof fn lemma_text_array_round_trip(items: Seq<Seq<char>>)
    ensures
        json_texts(text_array(items)) == Some(items),
{
    let held = text_array(items)->Array_0;
    assert forall|i: int| 0 <= i < held.len() implies (#[trigger] held[i]) is Text by {
        assert(held[i] == Json::Text(items[i]));
    }
    assert(json_texts(text_array(items))->0 =~= items);
}

/// Reading a snapshot's document gives the snapshot back: nothing of a
/// record is lost or changed on its way through the document.
pub proof fn lemma_document_round_trip(s: ServerInfoView)
    ensures
        document_snapshot(snapshot_document(s)) == Some(s),
{
    reveal_strlit("date");
    reveal_strlit("disks");
    reveal_strlit("net_interfaces");
    reveal_strlit("components");
    reveal_strlit("total_ram");
    reveal_strlit("used_memory");
    reveal_strlit("system_name");
    reveal_strlit("kernel_version");
    reveal_strlit("os_version");
    reveal_strlit("host_name");
    reveal_strlit("total_cpus");
    reveal_strlit("cpus");
    reveal_strlit("avg_cpu_usage");
    lemma_text_array_round_trip(s.disks);
    lemma_text_array_round_trip(s.net_interfaces);
    lemma_text_array_round_trip(s.components);
    lemma_text_array_round_trip(s.cpus);
    let j = snapshot_document(s);
    // Names differ in their length, and those of one length in their first
    // character.
    assert("date"@.len() == 4 && "cpus"@.len() == 4 && "disks"@.len() == 5);
    assert("net_interfaces"@.len() == 14 && "kernel_version"@.len() == 14);
    assert("components"@.len() == 10 && "os_version"@.len() == 10 && "total_cpus"@.len() == 10);
    assert("total_ram"@.len() == 9 && "host_name"@.len() == 9);
    assert("used_memory"@.len() == 11 && "system_name"@.len() == 11);
    assert("avg_cpu_usage"@.len() == 13);
    assert("date"@[0] == 'd' && "cpus"@[0] == 'c');
    assert("net_interfaces"@[0] == 'n' && "kernel_version"@[0] == 'k');
    assert("components"@[0] == 'c' && "os_version"@[0] == 'o' && "total_cpus"@[0] == 't');
    assert("total_ram"@[0] == 't' && "host_name"@[0] == 'h');
    assert("used_memory"@[0] == 'u' && "system_name"@[0] == 's');
    assert(field_i64(j, "date"@) == Some(s.date));
    assert(field_texts(j, "disks"@) == Some(s.disks));
    assert(field_texts(j, "net_interfaces"@) == Some(s.net_interfaces));
    assert(field_texts(j, "components"@) == Some(s.components));
    assert(field_u64(j, "total_ram"@) == Some(s.total_ram));
    assert(field_u64(j, "used_memory"@) == Some(s.used_memory));
    assert(field_text(j, "system_name"@) == Some(s.system_name));
    assert(field_text(j, "kernel_version"@) == Some(s.kernel_version));
    assert(field_text(j, "os_version"@) == Some(s.os_version));
    assert(field_text(j, "host_name"@) == Some(s.host_name));
    assert(field_count(j, "total_cpus"@) == Some(s.total_cpus));
    assert(field_texts(j, "cpus"@) == Some(s.cpus));
    assert(field_number(j, "avg_cpu_usage"@) == Some(s.avg_cpu_usage));
}

/// Whether a text is the name of a member of a snapshot's document.
pub open spec fn is_member_name(key: Seq<char>) -> bool {
    ||| key == "date"@
    ||| key == "disks"@
    ||| key == "net_interfaces"@
    ||| key == "components"@
    ||| key == "total_ram"@
    ||| key == "used_memory"@
    ||| key == "system_name"@
    ||| key == "kernel_version"@
    ||| key == "os_version"@
    ||| key == "host_name"@
    ||| key == "total_cpus"@
    ||| key == "cpus"@
    ||| key == "avg_cpu_usage"@
}

/// A member under a name that a snapshot's document does not have changes
/// nothing: an object gives the same snapshot, or none, with it and without
/// it.
pub proof fn lemma_unknown_member_passed_over(members: Map<Seq<char>, Json>, key: Seq<char>, value: Json)
    requires
        !is_member_name(key),
    ensures
        document_snapshot(Json::Object(members.insert(key, value)))
            == document_snapshot(Json::Object(members)),
{
}

/// Whether a run of bytes is a complete document that has every member of
/// a snapshot, each of its kind.
pub open spec fn holds_snapshot(bytes: Seq<u8>) -> bool {
    json_parse(bytes) matches Parsed::Document(j) && is_snapshot_document(j)
}

/// Whether the bytes written for a snapshot read back as its document.
pub open spec fn reads_back(s: ServerInfoView) -> bool {
    json_parse(encoded(s)) == Parsed::Document(snapshot_document(s))
}

/// When decoding gives which result: a snapshot exactly for bytes that hold
/// one, `Incomplete` exactly for bytes that end before the document does,
/// and `Malformed` for all other bytes.
pub proof fn lemma_decode_outcomes(bytes: Seq<u8>)
    ensures
        decoded(bytes) is Ok <==> holds_snapshot(bytes),
        decoded(bytes) == Err::<ServerInfoView, DecodeError>(DecodeError::Incomplete)
            <==> json_parse(bytes) is Truncated,
        decoded(bytes) == Err::<ServerInfoView, DecodeError>(DecodeError::Malformed)
            <==> !holds_snapshot(bytes) && !(json_parse(bytes) is Truncated),
{
}

/// Decoding what encoding wrote gives the snapshot back, wherever the bytes
/// written for the snapshot's document read back as that document.
pub proof fn lemma_round_trip(s: ServerInfoView)
    ensures
        reads_back(s) ==> decoded(encoded(s)) == Ok::<ServerInfoView, DecodeError>(s),
{
    lemma_document_round_trip(s);
}

} // verus!
