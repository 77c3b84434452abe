//! Reading, locking and writing the source of repository objects.

use http::header::{HeaderMap, HeaderValue};
use vstd::prelude::*;
use crate::adt::headers::{header_entries, headers_insert, headers_new, is_header_value};
use crate::text::{joined, owned};

verus! {

/// What can be done to an object.
#[derive(Copy, Clone, Debug, PartialEq, Eq, Structural)]
pub enum ObjectAction {
    Check,
    Activate,
    Lock,
    Unlock,
    Find,
}

impl ObjectAction {
    /// The action as the protocol names it.
    pub open spec fn spec_str(self) -> Seq<char> {
        match self {
            ObjectAction::Check => "CHECK"@,
            ObjectAction::Activate => "ACTIVATE"@,
            ObjectAction::Lock => "LOCK"@,
            ObjectAction::Unlock => "UNLOCK"@,
            ObjectAction::Find => "FIND"@,
        }
    }

    /// The name as the protocol writes it.
    pub fn as_str(&self) -> (name: &'static str)
        ensures
            name@ == self.spec_str(),
    {
        match self {
            ObjectAction::Check => "CHECK",
            ObjectAction::Activate => "ACTIVATE",
            ObjectAction::Lock => "LOCK",
            ObjectAction::Unlock => "UNLOCK",
            ObjectAction::Find => "FIND",
        }
    }
}

/// How an object is locked.
#[derive(Copy, Clone, Debug, PartialEq, Eq, Structural)]
pub enum AccessMode {
    /// Locked for reading only.
    Show,
    /// Locked for changes.
    Modify,
}

impl AccessMode {
    /// The mode as the protocol names it.
    pub open spec fn spec_str(self) -> Seq<char> {
        match self {
            AccessMode::Show => "SHOW"@,
            AccessMode::Modify => "MODIFY"@,
        }
    }

    /// The name as the protocol writes it.
    pub fn as_str(&self) -> (name: &'static str)
        ensures
            name@ == self.spec_str(),
    {
        match self {
            AccessMode::Show => "SHOW",
            AccessMode::Modify => "MODIFY",
        }
    }
}

/// The version of a source.
#[derive(Copy, Clone, Debug, PartialEq, Eq, Structural)]
pub enum Version {
    Active,
    Inactive,
}

impl Version {
    /// The version as the protocol names it.
    pub open spec fn spec_str(self) -> Seq<char> {
        match self {
            Version::Active => "active"@,
            Version::Inactive => "inactive"@,
        }
    }

    /// The name as the protocol writes it.
    pub fn as_str(&self) -> (name: &'static str)
        ensures
            name@ == self.spec_str(),
    {
        match self {
            Version::Active => "active",
            Version::Inactive => "inactive",
        }
    }
}

/// The method of a request.
#[derive(Copy, Clone, Debug, PartialEq, Eq, Structural)]
pub enum Method {
    Get,
    Post,
    Put,
}

/// An object with source code, by its name.
#[derive(Debug, Eq, PartialEq, Clone)]
pub enum SourceCodeObject {
    Program(String),
    Include(String),
    GlobalClass(String),
    TestClass(String),
    Structure(String),
}

/// A `SourceCodeObject` as contracts see it: texts by their characters.
pub enum SourceCodeObjectView {
    Program(Seq<char>),
    Include(Seq<char>),
    GlobalClass(Seq<char>),
    TestClass(Seq<char>),
    Structure(Seq<char>),
}

impl SourceCodeObjectView {
    /// The name of the object.
    pub open spec fn name(self) -> Seq<char> {
        match self {
            SourceCodeObjectView::Program(name) => name,
            SourceCodeObjectView::Include(name) => name,
            SourceCodeObjectView::GlobalClass(name) => name,
            SourceCodeObjectView::TestClass(name) => name,
            SourceCodeObjectView::Structure(name) => name,
        }
    }

    /// The path under which objects of this kind are addressed: programs
    /// and structures under their own, everything else as an include.
    pub open spec fn base(self) -> Seq<char> {
        match self {
            SourceCodeObjectView::Program(_) => "/sap/bc/adt/programs/programs/"@,
            SourceCodeObjectView::Structure(_) => "/sap/bc/adt/ddic/structures/"@,
            _ => "/sap/bc/adt/programs/includes/"@,
        }
    }

    /// The uri of the object.
    pub open spec fn object_uri(self) -> Seq<char> {
        self.base() + self.name()
    }

    /// The uri of the object's source: the main source below the object,
    /// but for a test class, whose source is the object itself.
    pub open spec fn source_code_uri(self) -> Seq<char> {
        match self {
            SourceCodeObjectView::TestClass(_) => self.object_uri(),
            _ => self.object_uri() + "/source/main"@,
        }
    }
}

impl View for SourceCodeObject {
    type V = SourceCodeObjectView;

    open spec fn view(&self) -> SourceCodeObjectView {
        match self {
            SourceCodeObject::Program(name) => SourceCodeObjectView::Program(name@),
            SourceCodeObject::Include(name) => SourceCodeObjectView::Include(name@),
            SourceCodeObject::GlobalClass(name) => SourceCodeObjectView::GlobalClass(name@),
            SourceCodeObject::TestClass(name) => SourceCodeObjectView::TestClass(name@),
            SourceCodeObject::Structure(name) => SourceCodeObjectView::Structure(name@),
        }
    }
}

impl SourceCodeObject {
    /// The uri of the object.
    pub fn object_uri(&self) -> (uri: String)
        ensures
            uri@ == self@.object_uri(),
    {
        match self {
            SourceCodeObject::Program(name) => joined(
                "/sap/bc/adt/programs/programs/",
                name.as_str(),
            ),
            SourceCodeObject::GlobalClass(name) => joined(
                "/sap/bc/adt/programs/includes/",
                name.as_str(),
            ),
            SourceCodeObject::Include(name) => joined(
                "/sap/bc/adt/programs/includes/",
                name.as_str(),
            ),
            SourceCodeObject::TestClass(name) => joined(
                "/sap/bc/adt/programs/includes/",
                name.as_str(),
            ),
            SourceCodeObject::Structure(name) => joined(
                "/sap/bc/adt/ddic/structures/",
                name.as_str(),
            ),
        }
    }

    /// The uri of the object's source.
    pub fn source_code_uri(&self) -> (uri: String)
        ensures
            uri@ == self@.source_code_uri(),
    {
        let uri = self.object_uri();
        match self {
            SourceCodeObject::TestClass(_) => uri,
            _ => joined(uri.as_str(), "/source/main"),
        }
    }
}

/// The parameters of a request, as names with values, in order.
pub open spec fn parameters_view(parameters: Seq<(String, String)>) -> Seq<(Seq<char>, Seq<char>)> {
    parameters.map_values(|p: (String, String)| (p.0@, p.1@))
}

/// One parameter.
fn parameter(name: &str, value: &str) -> (pair: (String, String))
    ensures
        pair.0@ == name@,
        pair.1@ == value@,
{
    (owned(name), owned(value))
}

/// A read of the source of an object.
#[derive(Debug, Eq, PartialEq, Clone)]
pub struct ObjectSourceRequest {
    object_uri: String,
    etag: Option<String>,
    version: Option<Version>,
}

/// A `ObjectSourceRequest` as contracts see it: texts by their characters.
pub struct ObjectSourceRequestView {
    pub object_uri: Seq<char>,
    pub etag: Option<Seq<char>>,
    pub version: Option<Version>,
}

impl View for ObjectSourceRequest {
    type V = ObjectSourceRequestView;

    closed spec fn view(&self) -> ObjectSourceRequestView {
        ObjectSourceRequestView {
            object_uri: self.object_uri@,
            etag: match self.etag {
                Some(etag) => Some(etag@),
                None => None,
            },
            version: self.version,
        }
    }
}

impl ObjectSourceRequestView {
    /// The headers of the read: with a tag of the copy held, the source is
    /// asked for only if it differs from that copy; without one, caches are
    /// passed by. The source is asked for as plain text.
    pub open spec fn headers(self) -> Map<Seq<char>, Seq<char>> {
        match self.etag {
            None => map!["cache-control"@ => "no-cache"@, "accept"@ => "text/plain"@],
            Some(etag) => map!["if-none-match"@ => etag, "accept"@ => "text/plain"@],
        }
    }

    /// The parameters of the read: the version, where one is asked for.
    pub open spec fn parameters(self) -> Seq<(Seq<char>, Seq<char>)> {
        match self.version {
            Some(version) => seq![("version"@, version.spec_str())],
            None => seq![],
        }
    }
}

impl ObjectSourceRequest {
    /// A read of the source of the object at `object_uri`, whatever is
    /// cached, in whatever version is current.
    pub fn new(object_uri: &str) -> (request: Self)
        ensures
            request@ == (ObjectSourceRequestView {
                object_uri: object_uri@,
                etag: None,
                version: None,
            }),
    {
        ObjectSourceRequest { object_uri: owned(object_uri), etag: None, version: None }
    }

    /// The uri of the object whose source is read.
    pub fn object_uri(&self) -> (uri: &str)
        ensures
            uri@ == self@.object_uri,
    {
        self.object_uri.as_str()
    }

    /// The read, for a caller that holds the copy with the given tag.
    pub fn etag(self, etag: &str) -> (request: Self)
        ensures
            request@ == (ObjectSourceRequestView { etag: Some(etag@), ..self@ }),
    {
        ObjectSourceRequest { etag: Some(owned(etag)), ..self }
    }

    /// The read, of the given version.
    pub fn version(self, version: Version) -> (request: Self)
        ensures
            request@ == (ObjectSourceRequestView { version: Some(version), ..self@ }),
    {
        ObjectSourceRequest { version: Some(version), ..self }
    }

    /// The method of the request.
    pub fn method(&self) -> (method: Method)
        ensures
            method == Method::Get,
    {
        Method::Get
    }

    /// The path of the read: the main source below the object.
    pub fn url(&self) -> (url: String)
        ensures
            url@ == self@.object_uri + "/source/main"@,
    {
        joined(self.object_uri.as_str(), "/source/main")
    }

    /// The query parameters of the request.
    pub fn parameters(&self) -> (parameters: Vec<(String, String)>)
        ensures
            parameters_view(parameters@) == self@.parameters(),
    {
        let mut parameters: Vec<(String, String)> = Vec::new();
        match &self.version {
            Some(version) => {
                parameters.push(parameter("version", version.as_str()));
                assert(parameters_view(parameters@) =~= self@.parameters());
            },
            None => {
                assert(parameters_view(parameters@) =~= self@.parameters());
            },
        }
        parameters
    }

    /// The headers of the read. There are none for a tag that no header
    /// can carry.
    pub fn headers(&self) -> (headers: Option<HeaderMap<HeaderValue>>)
        ensures
            match headers {
                Some(map) => header_entries(map) == self@.headers(),
                None => self@.etag matches Some(etag) && !is_header_value(etag),
            },
    {
        let mut map = headers_new();
        proof {
            lemma_names();
            lemma_values();
            assert(header_entries(map) =~= Map::<Seq<char>, Seq<char>>::empty());
        }
        match &self.etag {
            None => {
                let _ = headers_insert(&mut map, "cache-control", "no-cache");
            },
            Some(etag) => {
                if !headers_insert(&mut map, "if-none-match", etag.as_str()) {
                    return None;
                }
            },
        }
        let _ = headers_insert(&mut map, "accept", "text/plain");
        assert(header_entries(map) =~= self@.headers());
        Some(map)
    }
}

/// Locking an object.
#[derive(Debug, Eq, PartialEq, Clone)]
pub struct Lock {
    object_uri: String,
    access_mode: AccessMode,
}

/// A `Lock` as contracts see it: texts by their characters.
pub struct LockView {
    pub object_uri: Seq<char>,
    pub access_mode: AccessMode,
}

impl View for Lock {
    type V = LockView;

    closed spec fn view(&self) -> LockView {
        LockView { object_uri: self.object_uri@, access_mode: self.access_mode }
    }
}

impl Lock {
    /// The lock of the object at `object_uri`, such as
    /// `/sap/bc/adt/oo/classes/z_syntax_test`.
    pub fn new(object_uri: &str, access_mode: AccessMode) -> (lock: Self)
        ensures
            lock@ == (LockView { object_uri: object_uri@, access_mode }),
    {
        Lock { object_uri: owned(object_uri), access_mode }
    }

    /// The method of the request.
    pub fn method(&self) -> (method: Method)
        ensures
            method == Method::Post,
    {
        Method::Post
    }

    /// The path of the request.
    pub fn url(&self) -> (url: String)
        ensures
            url@ == self@.object_uri,
    {
        owned(self.object_uri.as_str())
    }

    /// The parameters: the action, then the access mode.
    pub fn parameters(&self) -> (parameters: Vec<(String, String)>)
        ensures
            parameters_view(parameters@) == seq![
                ("_action"@, ObjectAction::Lock.spec_str()),
                ("accessMode"@, self@.access_mode.spec_str()),
            ],
    {
        let parameters = vec![
            parameter("_action", ObjectAction::Lock.as_str()),
            parameter("accessMode", self.access_mode.as_str()),
        ];
        assert(parameters_view(parameters@) =~= seq![
            ("_action"@, ObjectAction::Lock.spec_str()),
            ("accessMode"@, self@.access_mode.spec_str()),
        ]);
        parameters
    }

    /// The headers: the answer is asked for as a lock result.
    pub fn headers(&self) -> (headers: HeaderMap<HeaderValue>)
        ensures
            header_entries(headers) == map![
                "accept"@ => "application/vnd.sap.as+xml; charset=utf-8; dataname=com.sap.adt.lock.Result2"@,
            ],
    {
        let mut map = headers_new();
        proof {
            lemma_names();
            lemma_values();
            assert(header_entries(map) =~= Map::<Seq<char>, Seq<char>>::empty());
        }
        let _ = headers_insert(
            &mut map,
            "accept",
            "application/vnd.sap.as+xml; charset=utf-8; dataname=com.sap.adt.lock.Result2",
        );
        map
    }
}

/// Giving up the lock of an object.
#[derive(Debug, Eq, PartialEq, Clone)]
pub struct Unlock {
    object_uri: String,
    lock_handle: String,
}

/// A `Unlock` as contracts see it: texts by their characters.
pub struct UnlockView {
    pub object_uri: Seq<char>,
    pub lock_handle: Seq<char>,
}

impl View for Unlock {
    type V = UnlockView;

    closed spec fn view(&self) -> UnlockView {
        UnlockView { object_uri: self.object_uri@, lock_handle: self.lock_handle@ }
    }
}

impl Unlock {
    /// The release of the lock that `lock_handle` stands for.
    pub fn new(object_uri: &str, lock_handle: &str) -> (unlock: Self)
        ensures
            unlock@ == (UnlockView { object_uri: object_uri@, lock_handle: lock_handle@ }),
    {
        Unlock { object_uri: owned(object_uri), lock_handle: owned(lock_handle) }
    }

    /// The method of the request.
    pub fn method(&self) -> (method: Method)
        ensures
            method == Method::Post,
    {
        Method::Post
    }

    /// The path of the request.
    pub fn url(&self) -> (url: String)
        ensures
            url@ == self@.object_uri,
    {
        owned(self.object_uri.as_str())
    }

    /// The parameters: the action, then the handle of the lock.
    pub fn parameters(&self) -> (parameters: Vec<(String, String)>)
        ensures
            parameters_view(parameters@) == seq![
                ("_action"@, ObjectAction::Unlock.spec_str()),
                ("lockHandle"@, self@.lock_handle),
            ],
    {
        let parameters = vec![
            parameter("_action", ObjectAction::Unlock.as_str()),
            parameter("lockHandle", self.lock_handle.as_str()),
        ];
        assert(parameters_view(parameters@) =~= seq![
            ("_action"@, ObjectAction::Unlock.spec_str()),
            ("lockHandle"@, self@.lock_handle),
        ]);
        parameters
    }
}

/// Writing the source of a locked object.
#[derive(Debug, Eq, PartialEq, Clone)]
pub struct UpdateSourceCode {
    object: SourceCodeObject,
    lock_handle: String,
    content: String,
}

/// A `UpdateSourceCode` as contracts see it: texts by their characters.
pub struct UpdateSourceCodeView {
    pub object: SourceCodeObjectView,
    pub lock_handle: Seq<char>,
    pub content: Seq<char>,
}

impl View for UpdateSourceCode {
    type V = UpdateSourceCodeView;

    closed spec fn view(&self) -> UpdateSourceCodeView {
        UpdateSourceCodeView {
            object: self.object@,
            lock_handle: self.lock_handle@,
            content: self.content@,
        }
    }
}

impl UpdateSourceCode {
    /// The write of `content` as the source of `object`, under the lock
    /// that `lock_handle` stands for.
    pub fn new(object: SourceCodeObject, lock_handle: &str, content: &str) -> (update: Self)
        ensures
            update@ == (UpdateSourceCodeView {
                object: object@,
                lock_handle: lock_handle@,
                content: content@,
            }),
    {
        UpdateSourceCode { object, lock_handle: owned(lock_handle), content: owned(content) }
    }

    /// The method of the request.
    pub fn method(&self) -> (method: Method)
        ensures
            method == Method::Put,
    {
        Method::Put
    }

    /// The path of the request.
    pub fn url(&self) -> (url: String)
        ensures
            url@ == self@.object.source_code_uri(),
    {
        self.object.source_code_uri()
    }

    /// The query parameters of the request.
    pub fn parameters(&self) -> (parameters: Vec<(String, String)>)
        ensures
            parameters_view(parameters@) == seq![("lockHandle"@, self@.lock_handle)],
    {
        let parameters = vec![parameter("lockHandle", self.lock_handle.as_str())];
        assert(parameters_view(parameters@) =~= seq![("lockHandle"@, self@.lock_handle)]);
        parameters
    }

    /// The headers: the body is plain text in UTF-8.
    pub fn headers(&self) -> (headers: HeaderMap<HeaderValue>)
        ensures
            header_entries(headers) == map!["content-type"@ => "text/plain; charset=utf-8"@],
    {
        let mut map = headers_new();
        proof {
            lemma_names();
            lemma_values();
            assert(header_entries(map) =~= Map::<Seq<char>, Seq<char>>::empty());
        }
        let _ = headers_insert(&mut map, "content-type", "text/plain; charset=utf-8");
        map
    }

    /// The body: the new source.
    pub fn body(&self) -> (body: String)
        ensures
            body@ == self@.content,
    {
        owned(self.content.as_str())
    }
}

/// The header names in use are names that the map takes as they stand.
proof fn lemma_names()
    ensures
        crate::adt::headers::is_plain_name("cache-control"@),
        crate::adt::headers::is_plain_name("if-none-match"@),
        crate::adt::headers::is_plain_name("accept"@),
        crate::adt::headers::is_plain_name("content-type"@),
{
    reveal_strlit("cache-control");
    reveal_strlit("if-none-match");
    reveal_strlit("accept");
    reveal_strlit("content-type");
}

/// The fixed header values in use are values that the map takes.
proof fn lemma_values()
    ensures
        is_header_value("no-cache"@),
        is_header_value("text/plain"@),
        is_header_value("text/plain; charset=utf-8"@),
        is_header_value(
            "application/vnd.sap.as+xml; charset=utf-8; dataname=com.sap.adt.lock.Result2"@,
        ),
{
    reveal_strlit("no-cache");
    reveal_strlit("text/plain");
    reveal_strlit("text/plain; charset=utf-8");
    reveal_strlit("application/vnd.sap.as+xml; charset=utf-8; dataname=com.sap.adt.lock.Result2");
}

} // verus!
