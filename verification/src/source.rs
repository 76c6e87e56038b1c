//! Fetched debug-source artifacts.
//!
//! A fetched source artifact couples a byte buffer with the structured debug
//! view parsed from those exact bytes.  [`SourceObject`] owns the buffer and
//! never exposes it; the borrowing views ([`SourceSession`]) are produced on
//! demand and carry the buffer's lifetime, so they can never outlive it.

use vstd::prelude::*;

verus! {

/// Whether `symbolic::debuginfo::Object::parse` succeeds on these bytes.
/// The result is a function of the bytes alone.
pub uninterp spec fn object_parses(data: Seq<u8>) -> bool;

/// Whether a debug session opens over the object parsed from these bytes
/// (`Object::debug_session`); a function of the bytes alone.
pub uninterp spec fn session_opens(data: Seq<u8>) -> bool;

/// Whether a debug session over these bytes yields a source-file descriptor
/// for a full canonicalized path; a function of bytes and path alone.
pub uninterp spec fn source_found(data: Seq<u8>, path: Seq<char>) -> bool;

/// The embedded source text that a debug session over these bytes yields for
/// a full canonicalized path, if any; a function of bytes and path alone.
/// A descriptor that only links to a URL carries no embedded text.
pub uninterp spec fn source_text(data: Seq<u8>, path: Seq<char>) -> Option<Seq<char>>;

#[verifier::external_type_specification]
#[verifier::external_body]
pub struct ExObject<'a>(symbolic::debuginfo::Object<'a>);

#[verifier::external_type_specification]
#[verifier::external_body]
pub struct ExObjectDebugSession<'a>(symbolic::debuginfo::ObjectDebugSession<'a>);

#[verifier::external_type_specification]
#[verifier::external_body]
pub struct ExSourceFileDescriptor<'a>(symbolic::debuginfo::sourcebundle::SourceFileDescriptor<'a>);

/// A structured debug object together with the bytes it was parsed from.
pub struct ParsedObject<'a> {
    obj: symbolic::debuginfo::Object<'a>,
    data: &'a [u8],
}

impl<'a> ParsedObject<'a> {
    /// The bytes this view was parsed from.
    pub closed spec fn bytes(&self) -> Seq<u8> {
        self.data@
    }
}

/// Relies on `symbolic::debuginfo::Object::parse`: whether the bytes parse,
/// and the parsed object itself, are functions of the bytes alone.
#[verifier::external_body]
fn parse_object<'a>(data: &'a [u8]) -> (r: Option<ParsedObject<'a>>)
    ensures
        r is Some <==> object_parses(data@),
        r matches Some(po) ==> po.bytes() == data@,
{
    match symbolic::debuginfo::Object::parse(data) {
        Ok(obj) => Some(ParsedObject { obj, data }),
        Err(_) => None,
    }
}

/// A read-only debug session borrowing the bytes of the source object it was
/// opened over.
pub struct SourceSession<'a> {
    session: symbolic::debuginfo::ObjectDebugSession<'a>,
    data: &'a [u8],
}

/// Relies on `symbolic::debuginfo::Object::debug_session`: whether a session
/// opens is a function of the object's bytes alone.
#[verifier::external_body]
fn open_session_on<'a>(po: ParsedObject<'a>) -> (r: Option<SourceSession<'a>>)
    ensures
        r is Some <==> session_opens(po.bytes()),
        r matches Some(s) ==> s.bytes() == po.bytes(),
{
    match po.obj.debug_session() {
        Ok(session) => Some(SourceSession { session, data: po.data }),
        Err(_) => None,
    }
}

/// A source-file descriptor found in a debug session, together with the
/// bytes and path that determined it.
pub struct FoundSource<'s> {
    descriptor: symbolic::debuginfo::sourcebundle::SourceFileDescriptor<'s>,
    data: &'s [u8],
    path: &'s str,
}

/// Relies on `ObjectDebugSession::source_by_path`: whether a descriptor is
/// found, and which, is a function of the debug bytes and the path alone; a
/// lookup error counts as nothing found.
#[verifier::external_body]
fn find_source<'s>(s: &'s SourceSession<'_>, path: &'s str) -> (r: Option<FoundSource<'s>>)
    ensures
        r is Some <==> source_found(s.bytes(), path@),
        r matches Some(f) ==> f.data@ == s.bytes() && f.path@ == path@,
        r is None ==> source_text(s.bytes(), path@) is None,
{
    match s.session.source_by_path(path) {
        Ok(Some(descriptor)) => Some(FoundSource { descriptor, data: s.data, path }),
        _ => None,
    }
}

/// Relies on `SourceFileDescriptor::contents`: the embedded text of a found
/// descriptor is a function of the bytes and path that determined it; a
/// descriptor holding only a source link has none.
#[verifier::external_body]
fn source_contents(f: &FoundSource<'_>) -> (r: Option<String>)
    ensures
        match r {
            Some(text) => source_text(f.data@, f.path@) == Some(text@),
            None => source_text(f.data@, f.path@) is None,
        },
{
    match f.descriptor.contents() {
        Some(text) => Some(text.to_string()),
        None => None,
    }
}

impl<'a> SourceSession<'a> {
    /// The bytes of the source object this session reads from.
    pub closed spec fn bytes(&self) -> Seq<u8> {
        self.data@
    }

    /// The embedded source text this session holds for a full canonicalized
    /// path: none when the path is unknown, the lookup fails, or the file is
    /// only linked rather than embedded.
    pub fn source_by_path(&self, path: &str) -> (r: Option<String>)
        ensures
            match r {
                Some(text) => source_text(self.bytes(), path@) == Some(text@),
                None => source_text(self.bytes(), path@) is None,
            },
    {
        match find_source(self, path) {
            Some(found) => source_contents(&found),
            None => None,
        }
    }
}

/// An owned buffer of fetched source-object bytes, known to parse into a
/// structured debug object.  The buffer is never handed out; only borrowing
/// views over it are.
pub struct SourceObject {
    data: Vec<u8>,
}

impl SourceObject {
    /// The owned bytes (visible to specifications only).
    pub closed spec fn bytes(&self) -> Seq<u8> {
        self.data@
    }

    /// The buffer always holds bytes that parse.
    pub open spec fn wf(&self) -> bool {
        object_parses(self.bytes())
    }

    /// Takes ownership of fetched bytes; succeeds exactly when they parse
    /// into a structured debug object.
    pub fn parse(data: Vec<u8>) -> (r: Option<SourceObject>)
        ensures
            r is Some <==> object_parses(data@),
            r matches Some(so) ==> so.bytes() == data@ && so.wf(),
    {
        let parsed = parse_object(data.as_slice()).is_some();
        if parsed {
            Some(SourceObject { data })
        } else {
            None
        }
    }

    /// Opens a read-only debug session borrowing this object's bytes.
    /// Failure to open is no error: the caller maps it to "no session".
    pub fn open_session<'a>(&'a self) -> (r: Option<SourceSession<'a>>)
        requires
            self.wf(),
        ensures
            r is Some <==> session_opens(self.bytes()),
            r matches Some(s) ==> s.bytes() == self.bytes(),
    {
        match parse_object(self.data.as_slice()) {
            Some(po) => open_session_on(po),
            None => vstd::pervasive::unreached(),
        }
    }
}

} // verus!
