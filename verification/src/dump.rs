//! The envelope of a dumped session.
//!
//! Layout: version (`u16`), tag (`u8`), session metadata, payload. Tag 0 is an
//! idle session and tag 1 a suspended one. The metadata is the script name and
//! a type-check flag and, when the flag is 1, the committed stubs, a pending
//! flag and the pending snippet. Texts are a `u32` byte length followed by
//! UTF-8 bytes; all integers are little-endian.

use crate::common::string_from_utf8;
use crate::frame::as_u32;
use crate::text::{byte_len, cat5, decimal, decimal_of, utf8_len};
use vstd::bytes::*;
use vstd::prelude::*;
use vstd::slice::*;
use vstd::string::*;
use vstd::utf8::{decode_utf8, decode_utf8_encode_utf8, encode_utf8, encode_utf8_decode_utf8, encode_utf8_valid_utf8, valid_utf8};

verus! {

/// Version of the envelope.
pub const DUMP_VERSION: u16 = 5;

/// Tag of an idle session.
pub const TAG_IDLE: u8 = 0;

/// Tag of a suspended session.
pub const TAG_SUSPENDED: u8 = 1;

/// Per-session type-check state: successfully committed snippets accumulate as
/// stubs so later snippets can reference names defined by earlier ones.
#[derive(Debug)]
pub struct TypeCheckState {
    /// User-provided stubs plus every snippet that has completed successfully.
    pub committed_stubs: String,
    /// The in-flight snippet; committed on completion, discarded on error.
    pub pending_snippet: Option<String>,
}

/// The session state that lives outside the interpreter.
#[derive(Debug)]
pub struct SessionMeta {
    pub script_name: String,
    pub type_check: Option<TypeCheckState>,
}

/// Type-check state over character sequences.
pub ghost struct TypeCheckView {
    pub committed_stubs: Seq<char>,
    pub pending_snippet: Option<Seq<char>>,
}

/// Session metadata over character sequences.
pub ghost struct MetaView {
    pub script_name: Seq<char>,
    pub type_check: Option<TypeCheckView>,
}

impl View for TypeCheckState {
    type V = TypeCheckView;

    open spec fn view(&self) -> TypeCheckView {
        TypeCheckView {
            committed_stubs: self.committed_stubs@,
            pending_snippet: match self.pending_snippet {
                Some(s) => Some(s@),
                None => None,
            },
        }
    }
}

/// An optional type-check state over character sequences.
pub open spec fn type_check_view(tc: Option<TypeCheckState>) -> Option<TypeCheckView> {
    match tc {
        Some(tc) => Some(tc@),
        None => None,
    }
}

impl View for SessionMeta {
    type V = MetaView;

    open spec fn view(&self) -> MetaView {
        MetaView { script_name: self.script_name@, type_check: type_check_view(self.type_check) }
    }
}

impl MetaView {
    /// Every text is short enough for its length field.
    pub open spec fn fits(self) -> bool {
        &&& utf8_len(self.script_name) <= u32::MAX
        &&& self.type_check is Some ==> {
            &&& utf8_len(self.type_check->Some_0.committed_stubs) <= u32::MAX
            &&& self.type_check->Some_0.pending_snippet is Some ==> utf8_len(
                self.type_check->Some_0.pending_snippet->Some_0,
            ) <= u32::MAX
        }
    }
}

/// The bytes of a text field.
pub open spec fn str_field(s: Seq<char>) -> Seq<u8> {
    spec_u32_to_le_bytes(utf8_len(s) as u32) + encode_utf8(s)
}

/// The bytes of a pending snippet.
pub open spec fn pending_bytes(pending: Option<Seq<char>>) -> Seq<u8> {
    match pending {
        None => seq![0u8],
        Some(snippet) => seq![1u8] + str_field(snippet),
    }
}

/// The bytes of the type-check state.
pub open spec fn type_check_bytes(tc: Option<TypeCheckView>) -> Seq<u8> {
    match tc {
        None => seq![0u8],
        Some(tc) => seq![1u8] + str_field(tc.committed_stubs) + pending_bytes(tc.pending_snippet),
    }
}

/// The bytes of the session metadata.
pub open spec fn meta_bytes(meta: MetaView) -> Seq<u8> {
    str_field(meta.script_name) + type_check_bytes(meta.type_check)
}

/// The bytes of a dump.
pub open spec fn dump_bytes(tag: u8, meta: MetaView, payload: Seq<u8>) -> Seq<u8> {
    spec_u16_to_le_bytes(DUMP_VERSION) + seq![tag] + meta_bytes(meta) + payload
}

/// The text field at the front of `bytes` and what follows it.
pub open spec fn parse_str(bytes: Seq<u8>) -> Option<(Seq<char>, Seq<u8>)> {
    if bytes.len() < 4 {
        None
    } else {
        let len = spec_u32_from_le_bytes(bytes.take(4)) as int;
        let rest = bytes.skip(4);
        if rest.len() < len || !valid_utf8(rest.take(len)) {
            None
        } else {
            Some((decode_utf8(rest.take(len)), rest.skip(len)))
        }
    }
}

/// The pending snippet at the front of `bytes` and what follows it.
pub open spec fn parse_pending(bytes: Seq<u8>) -> Option<(Option<Seq<char>>, Seq<u8>)> {
    if bytes.len() == 0 {
        None
    } else if bytes[0] == 0 {
        Some((None, bytes.skip(1)))
    } else if bytes[0] == 1 {
        match parse_str(bytes.skip(1)) {
            Some((snippet, rest)) => Some((Some(snippet), rest)),
            None => None,
        }
    } else {
        None
    }
}

/// The type-check state at the front of `bytes` and what follows it.
pub open spec fn parse_type_check(bytes: Seq<u8>) -> Option<(Option<TypeCheckView>, Seq<u8>)> {
    if bytes.len() == 0 {
        None
    } else if bytes[0] == 0 {
        Some((None, bytes.skip(1)))
    } else if bytes[0] == 1 {
        match parse_str(bytes.skip(1)) {
            None => None,
            Some((committed_stubs, rest)) => match parse_pending(rest) {
                None => None,
                Some((pending_snippet, rest)) => Some((Some(TypeCheckView { committed_stubs, pending_snippet }), rest)),
            },
        }
    } else {
        None
    }
}

/// The session metadata at the front of `bytes` and what follows it.
pub open spec fn parse_meta(bytes: Seq<u8>) -> Option<(MetaView, Seq<u8>)> {
    match parse_str(bytes) {
        None => None,
        Some((script_name, rest)) => match parse_type_check(rest) {
            None => None,
            Some((type_check, rest)) => Some((MetaView { script_name, type_check }, rest)),
        },
    }
}

/// A dump taken apart: its tag, metadata and payload, or why it is refused.
pub open spec fn parse_dump_spec(state: Seq<u8>) -> Result<(u8, MetaView, Seq<u8>), Seq<char>> {
    if state.len() < 2 {
        Err("dump state too short"@)
    } else if spec_u16_from_le_bytes(state.take(2)) != DUMP_VERSION {
        Err(
            "unsupported dump version "@ + decimal(spec_u16_from_le_bytes(state.take(2)) as nat) + " (expected "@
                + decimal(DUMP_VERSION as nat) + ")"@,
        )
    } else if state.len() == 2 {
        Err("dump state too short"@)
    } else {
        match parse_meta(state.skip(3)) {
            None => Err("malformed dump session metadata"@),
            Some((meta, payload)) => Ok((state[2], meta, payload)),
        }
    }
}

/// Appends a length-prefixed text field to a dump envelope.
pub fn push_str_field(buf: &mut Vec<u8>, s: &str)
    requires
        utf8_len(s@) <= u32::MAX,
    ensures
        final(buf)@ == old(buf)@ + str_field(s@),
{
    let ghost before = buf@;
    let len: u32 = as_u32(byte_len(s));
    let prefix: Vec<u8> = u32_to_le_bytes(len);
    buf.extend_from_slice(prefix.as_slice());
    buf.extend_from_slice(s.as_bytes());
    proof {
        assert(buf@ =~= before + str_field(s@));
    }
}

/// Appends the session metadata to a dump envelope.
pub fn push_session_meta(buf: &mut Vec<u8>, script_name: &str, type_check: &Option<TypeCheckState>)
    requires
        (MetaView { script_name: script_name@, type_check: type_check_view(*type_check) }).fits(),
    ensures
        final(buf)@ == old(buf)@ + meta_bytes(
            MetaView { script_name: script_name@, type_check: type_check_view(*type_check) },
        ),
{
    let ghost before = buf@;
    push_str_field(buf, script_name);
    match type_check {
        Some(tc) => {
            buf.push(1);
            push_str_field(buf, tc.committed_stubs.as_str());
            match &tc.pending_snippet {
                Some(snippet) => {
                    buf.push(1);
                    push_str_field(buf, snippet.as_str());
                },
                None => buf.push(0),
            }
        },
        None => buf.push(0),
    }
    proof {
        assert(buf@ =~= before + meta_bytes(
            MetaView { script_name: script_name@, type_check: type_check_view(*type_check) },
        ));
    }
}

/// The bytes of a dump with this tag and payload.
pub fn build_dump(tag: u8, script_name: &str, type_check: &Option<TypeCheckState>, payload: &[u8]) -> (r: Vec<u8>)
    requires
        (MetaView { script_name: script_name@, type_check: type_check_view(*type_check) }).fits(),
    ensures
        r@ == dump_bytes(
            tag,
            MetaView { script_name: script_name@, type_check: type_check_view(*type_check) },
            payload@,
        ),
{
    let mut state: Vec<u8> = u16_to_le_bytes(DUMP_VERSION);
    state.push(tag);
    push_session_meta(&mut state, script_name, type_check);
    state.extend_from_slice(payload);
    proof {
        assert(state@ =~= dump_bytes(
            tag,
            MetaView { script_name: script_name@, type_check: type_check_view(*type_check) },
            payload@,
        ));
    }
    state
}

/// Splits a length-prefixed text field off the front of a dump envelope.
pub fn take_str_field(bytes: &[u8]) -> (r: Option<(String, &[u8])>)
    ensures
        match parse_str(bytes@) {
            None => r is None,
            Some((text, rest)) => r is Some && r->Some_0.0@ == text && r->Some_0.1@ == rest,
        },
{
    if bytes.len() < 4 {
        return None;
    }
    let prefix: &[u8] = slice_subrange(bytes, 0, 4);
    let rest: &[u8] = slice_subrange(bytes, 4, bytes.len());
    proof {
        assert(prefix@ =~= bytes@.take(4));
        assert(rest@ =~= bytes@.skip(4));
    }
    let len: usize = u32_from_le_bytes(prefix) as usize;
    if rest.len() < len {
        return None;
    }
    let field: &[u8] = slice_subrange(rest, 0, len);
    let tail: &[u8] = slice_subrange(rest, len, rest.len());
    proof {
        assert(field@ =~= rest@.take(len as int));
        assert(tail@ =~= rest@.skip(len as int));
    }
    match string_from_utf8(slice_to_vec(field)) {
        Ok(text) => Some((text, tail)),
        Err(_) => None,
    }
}

/// Splits the session metadata off the front of a dump envelope, returning it
/// together with the remaining payload.
pub fn take_session_meta(bytes: &[u8]) -> (r: Option<(SessionMeta, &[u8])>)
    ensures
        match parse_meta(bytes@) {
            None => r is None,
            Some((meta, rest)) => r is Some && r->Some_0.0@ == meta && r->Some_0.1@ == rest,
        },
{
    let (script_name, rest) = match take_str_field(bytes) {
        None => return None,
        Some(field) => field,
    };
    if rest.len() == 0 {
        return None;
    }
    let flag: u8 = rest[0];
    let after: &[u8] = slice_subrange(rest, 1, rest.len());
    proof {
        assert(after@ =~= rest@.skip(1));
    }
    if flag == 0 {
        return Some((SessionMeta { script_name, type_check: None }, after));
    }
    if flag != 1 {
        return None;
    }
    let (committed_stubs, rest) = match take_str_field(after) {
        None => return None,
        Some(field) => field,
    };
    if rest.len() == 0 {
        return None;
    }
    let pending_flag: u8 = rest[0];
    let after: &[u8] = slice_subrange(rest, 1, rest.len());
    proof {
        assert(after@ =~= rest@.skip(1));
    }
    if pending_flag == 0 {
        let tc: TypeCheckState = TypeCheckState { committed_stubs, pending_snippet: None };
        return Some((SessionMeta { script_name, type_check: Some(tc) }, after));
    }
    if pending_flag != 1 {
        return None;
    }
    match take_str_field(after) {
        None => None,
        Some((snippet, rest)) => {
            let tc: TypeCheckState = TypeCheckState { committed_stubs, pending_snippet: Some(snippet) };
            Some((SessionMeta { script_name, type_check: Some(tc) }, rest))
        },
    }
}

/// Takes a dump apart into its tag, metadata and payload.
pub fn parse_dump(state: &[u8]) -> (r: Result<(u8, SessionMeta, Vec<u8>), String>)
    ensures
        match parse_dump_spec(state@) {
            Ok((tag, meta, payload)) => r is Ok && r->Ok_0.0 == tag && r->Ok_0.1@ == meta && r->Ok_0.2@ == payload,
            Err(message) => r is Err && r->Err_0@ == message,
        },
{
    if state.len() < 2 {
        return Err("dump state too short".to_owned());
    }
    let prefix: &[u8] = slice_subrange(state, 0, 2);
    proof {
        assert(prefix@ =~= state@.take(2));
    }
    let version: u16 = u16_from_le_bytes(prefix);
    if version != DUMP_VERSION {
        return Err(
            cat5(
                "unsupported dump version ",
                decimal_of(version as u64).as_str(),
                " (expected ",
                decimal_of(DUMP_VERSION as u64).as_str(),
                ")",
            ),
        );
    }
    if state.len() == 2 {
        return Err("dump state too short".to_owned());
    }
    let tag: u8 = state[2];
    let rest: &[u8] = slice_subrange(state, 3, state.len());
    proof {
        assert(rest@ =~= state@.skip(3));
    }
    match take_session_meta(rest) {
        None => Err("malformed dump session metadata".to_owned()),
        Some((meta, payload)) => Ok((tag, meta, slice_to_vec(payload))),
    }
}

/// Reading a text field back gives the text.
pub proof fn lemma_str_field_round_trip(s: Seq<char>, rest: Seq<u8>)
    requires
        utf8_len(s) <= u32::MAX,
    ensures
        parse_str(str_field(s) + rest) == Some((s, rest)),
{
    lemma_auto_spec_u32_to_from_le_bytes();
    encode_utf8_decode_utf8(s);
    encode_utf8_valid_utf8(s);
    let bytes = str_field(s) + rest;
    let prefix = spec_u32_to_le_bytes(utf8_len(s) as u32);
    assert(prefix.len() == 4);
    assert(bytes.take(4) =~= prefix);
    assert(bytes.skip(4) =~= encode_utf8(s) + rest);
    assert(bytes.skip(4).take(utf8_len(s) as int) =~= encode_utf8(s));
    assert(bytes.skip(4).skip(utf8_len(s) as int) =~= rest);
}

proof fn lemma_pending_round_trip(pending: Option<Seq<char>>, rest: Seq<u8>)
    requires
        pending is Some ==> utf8_len(pending->Some_0) <= u32::MAX,
    ensures
        parse_pending(pending_bytes(pending) + rest) == Some((pending, rest)),
{
    let bytes = pending_bytes(pending) + rest;
    match pending {
        None => {
            assert(bytes.skip(1) =~= rest);
        },
        Some(snippet) => {
            assert(bytes.skip(1) =~= str_field(snippet) + rest);
            lemma_str_field_round_trip(snippet, rest);
        },
    }
}

proof fn lemma_type_check_round_trip(tc: Option<TypeCheckView>, rest: Seq<u8>)
    requires
        (MetaView { script_name: Seq::empty(), type_check: tc }).fits(),
    ensures
        parse_type_check(type_check_bytes(tc) + rest) == Some((tc, rest)),
{
    let bytes = type_check_bytes(tc) + rest;
    match tc {
        None => {
            assert(bytes.skip(1) =~= rest);
        },
        Some(tc) => {
            let tail = pending_bytes(tc.pending_snippet) + rest;
            assert(bytes.skip(1) =~= str_field(tc.committed_stubs) + tail);
            lemma_str_field_round_trip(tc.committed_stubs, tail);
            lemma_pending_round_trip(tc.pending_snippet, rest);
        },
    }
}

/// Reading the session metadata back gives the metadata.
pub proof fn law_meta_round_trip(meta: MetaView, rest: Seq<u8>)
    requires
        meta.fits(),
    ensures
        parse_meta(meta_bytes(meta) + rest) == Some((meta, rest)),
{
    let tail = type_check_bytes(meta.type_check) + rest;
    assert(meta_bytes(meta) + rest =~= str_field(meta.script_name) + tail);
    lemma_str_field_round_trip(meta.script_name, tail);
    lemma_type_check_round_trip(meta.type_check, rest);
}

/// A dump taken apart gives the tag, metadata and payload it was built from.
pub proof fn law_dump_round_trip(tag: u8, meta: MetaView, payload: Seq<u8>)
    requires
        meta.fits(),
    ensures
        parse_dump_spec(dump_bytes(tag, meta, payload)) == Ok::<(u8, MetaView, Seq<u8>), Seq<char>>(
            (tag, meta, payload),
        ),
{
    lemma_auto_spec_u16_to_from_le_bytes();
    let bytes = dump_bytes(tag, meta, payload);
    let version = spec_u16_to_le_bytes(DUMP_VERSION);
    assert(version.len() == 2);
    assert(bytes.take(2) =~= version);
    assert(bytes[2] == tag);
    assert(bytes.skip(3) =~= meta_bytes(meta) + payload);
    law_meta_round_trip(meta, payload);
}

proof fn lemma_parsed_str(bytes: Seq<u8>)
    requires
        parse_str(bytes) is Some,
    ensures
        bytes == str_field(parse_str(bytes)->Some_0.0) + parse_str(bytes)->Some_0.1,
{
    lemma_auto_spec_u32_to_from_le_bytes();
    let len = spec_u32_from_le_bytes(bytes.take(4)) as int;
    let field = bytes.skip(4).take(len);
    decode_utf8_encode_utf8(field);
    assert(bytes =~= bytes.take(4) + field + bytes.skip(4).skip(len));
    assert(bytes =~= str_field(parse_str(bytes)->Some_0.0) + parse_str(bytes)->Some_0.1);
}

proof fn lemma_parsed_pending(bytes: Seq<u8>)
    requires
        parse_pending(bytes) is Some,
    ensures
        bytes == pending_bytes(parse_pending(bytes)->Some_0.0) + parse_pending(bytes)->Some_0.1,
{
    let (pending, rest) = parse_pending(bytes)->Some_0;
    if bytes[0] == 1 {
        lemma_parsed_str(bytes.skip(1));
    }
    assert(bytes =~= seq![bytes[0]] + bytes.skip(1));
    assert(bytes =~= pending_bytes(pending) + rest);
}

proof fn lemma_parsed_type_check(bytes: Seq<u8>)
    requires
        parse_type_check(bytes) is Some,
    ensures
        bytes == type_check_bytes(parse_type_check(bytes)->Some_0.0) + parse_type_check(bytes)->Some_0.1,
{
    let (tc, rest) = parse_type_check(bytes)->Some_0;
    assert(bytes =~= seq![bytes[0]] + bytes.skip(1));
    if bytes[0] == 1 {
        lemma_parsed_str(bytes.skip(1));
        lemma_parsed_pending(parse_str(bytes.skip(1))->Some_0.1);
    }
    assert(bytes =~= type_check_bytes(tc) + rest);
}

proof fn lemma_parsed_meta(bytes: Seq<u8>)
    requires
        parse_meta(bytes) is Some,
    ensures
        bytes == meta_bytes(parse_meta(bytes)->Some_0.0) + parse_meta(bytes)->Some_0.1,
{
    let (script_name, after) = parse_str(bytes)->Some_0;
    let (type_check, rest) = parse_type_check(after)->Some_0;
    lemma_parsed_str(bytes);
    lemma_parsed_type_check(after);
    assert(str_field(script_name) + (type_check_bytes(type_check) + rest) =~= str_field(script_name) + type_check_bytes(
        type_check,
    ) + rest);
}

/// A dump that is taken apart is the dump of what was found in it: no byte of
/// it is passed over.
pub proof fn law_dumps_are_read_whole(state: Seq<u8>, tag: u8, meta: MetaView, payload: Seq<u8>)
    requires
        parse_dump_spec(state) == Ok::<(u8, MetaView, Seq<u8>), Seq<char>>((tag, meta, payload)),
    ensures
        state == dump_bytes(tag, meta, payload),
{
    lemma_auto_spec_u16_to_from_le_bytes();
    lemma_parsed_meta(state.skip(3));
    let described = meta_bytes(meta);
    assert(state.skip(3) == described + payload);
    let version = spec_u16_to_le_bytes(DUMP_VERSION);
    assert(state.take(2) == version);
    assert(state =~= state.take(2) + seq![state[2]] + state.skip(3));
    assert(version + seq![tag] + (described + payload) =~= version + seq![tag] + described + payload);
}

/// A dump is the version, the tag, the script name behind its length, the
/// type-check state behind its flag, and the payload.
pub proof fn law_dump_layout(tag: u8, meta: MetaView, payload: Seq<u8>)
    ensures
        ({
            let name = encode_utf8(meta.script_name);
            let front = spec_u16_to_le_bytes(5u16) + seq![tag] + spec_u32_to_le_bytes(name.len() as u32) + name;
            dump_bytes(tag, meta, payload) == match meta.type_check {
                None => front + seq![0u8] + payload,
                Some(tc) => {
                    let stubs = encode_utf8(tc.committed_stubs);
                    let checked = front + seq![1u8] + spec_u32_to_le_bytes(stubs.len() as u32) + stubs;
                    match tc.pending_snippet {
                        None => checked + seq![0u8] + payload,
                        Some(pending) => {
                            let snippet = encode_utf8(pending);
                            checked + seq![1u8] + spec_u32_to_le_bytes(snippet.len() as u32) + snippet + payload
                        },
                    }
                },
            }
        }),
{
    let name = encode_utf8(meta.script_name);
    let front = spec_u16_to_le_bytes(5u16) + seq![tag] + spec_u32_to_le_bytes(name.len() as u32) + name;
    let bytes = dump_bytes(tag, meta, payload);
    match meta.type_check {
        None => {
            assert(bytes =~= front + seq![0u8] + payload);
        },
        Some(tc) => {
            let stubs = encode_utf8(tc.committed_stubs);
            let checked = front + seq![1u8] + spec_u32_to_le_bytes(stubs.len() as u32) + stubs;
            match tc.pending_snippet {
                None => {
                    assert(bytes =~= checked + seq![0u8] + payload);
                },
                Some(pending) => {
                    let snippet = encode_utf8(pending);
                    assert(bytes =~= checked + seq![1u8] + spec_u32_to_le_bytes(snippet.len() as u32) + snippet
                        + payload);
                },
            }
        },
    }
}

/// A dump of another version is refused by its number, whatever follows it.
pub proof fn law_other_versions_are_refused(version: u16, rest: Seq<u8>)
    requires
        version != 5,
    ensures
        parse_dump_spec(spec_u16_to_le_bytes(version) + rest) == Err::<(u8, MetaView, Seq<u8>), Seq<char>>(
            "unsupported dump version "@ + decimal(version as nat) + " (expected "@ + decimal(5) + ")"@,
        ),
{
    lemma_auto_spec_u16_to_from_le_bytes();
    assert((spec_u16_to_le_bytes(version) + rest).take(2) =~= spec_u16_to_le_bytes(version));
}

/// A session can be dumped exactly where each of its texts takes less than
/// 2^32 bytes.
pub proof fn law_dumpable_texts_are_short(meta: MetaView)
    ensures
        meta.fits() <==> {
            &&& utf8_len(meta.script_name) <= 0xffff_ffff
            &&& meta.type_check is Some ==> utf8_len(meta.type_check->Some_0.committed_stubs) <= 0xffff_ffff
            &&& meta.type_check is Some && meta.type_check->Some_0.pending_snippet is Some ==> utf8_len(
                meta.type_check->Some_0.pending_snippet->Some_0,
            ) <= 0xffff_ffff
        },
{
}

} // verus!
