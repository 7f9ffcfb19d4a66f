//! The life of one image request, as a state machine. The caller performs
//! each filesystem step that an `Action` asks for and reports back with an
//! `Event`; every decision is made here.

use vstd::prelude::*;
use crate::error::ServeError;
use crate::params::{has_params, key_of, normalized, ImageParams};
use crate::path::{
    content_kind_of, content_type_for, is_safe_path, is_within, output_format_for,
    output_format_of, path_extension, request_extension, segments_are_safe, within, ContentKind,
    OutputFormat,
};
use crate::raster::{error_is, render, render_result};

verus! {

/// Where a request stands.
#[derive(Clone, Copy, Debug, PartialEq, Eq, Structural)]
pub enum Stage {
    /// Waiting for the cache entry's path to be resolved.
    CheckCache,
    /// Waiting for the cache entry's bytes.
    ReadCache,
    /// Waiting for the original's path to be resolved.
    CheckOriginal,
    /// Waiting for the original's bytes.
    ReadOriginal,
    /// Answered.
    Done,
}

/// Where the bytes of a response came from.
#[derive(Clone, Copy, Debug, PartialEq, Eq, Structural)]
pub enum Source {
    /// The original file, unchanged.
    Original,
    /// A stored artifact: the cache was hit.
    Cache,
    /// A transformation made for this request.
    Fresh,
}

/// A successful response.
pub struct Reply {
    pub content: ContentKind,
    pub body: Vec<u8>,
    pub source: Source,
    /// Where to store `body` for later requests, relative to the image root.
    /// Storing is best-effort: its failure does not change the response.
    pub persist: Option<Vec<String>>,
}

/// What the caller is asked to do next. Paths are segments under the image root.
pub enum Action {
    /// Resolve this path fully, following links, and report the resolution.
    Resolve(Vec<String>),
    /// Read this file, which has been found to lie under the root, and report its bytes.
    Read(Vec<String>),
    /// Answer with these bytes.
    Respond(Reply),
    /// Answer with a not-found response for this failure.
    Reject(ServeError),
}

/// The outcome of resolving a path.
pub enum Resolution {
    /// The image root itself cannot be resolved.
    RootUnresolvable,
    /// Nothing exists at the path.
    Missing,
    /// The resolved root and target, as components, and whether the target is a regular file.
    Found { root: Vec<String>, target: Vec<String>, is_file: bool },
}

/// What the caller reports back.
pub enum Event {
    Resolved(Resolution),
    /// The bytes read, or `None` where reading failed.
    Loaded(Option<Vec<u8>>),
}

/// What a resolution means for the request.
pub enum Check {
    Unresolvable,
    Absent,
    Outside,
    NotFile,
    Inside,
}

pub open spec fn check_of(res: Resolution) -> Check {
    match res {
        Resolution::RootUnresolvable => Check::Unresolvable,
        Resolution::Missing => Check::Absent,
        Resolution::Found { root, target, is_file } => if !within(root@, target@) {
            Check::Outside
        } else if !is_file {
            Check::NotFile
        } else {
            Check::Inside
        },
    }
}

/// A cache entry lives at `<key>/<path of the original>` under the root.
pub open spec fn is_cache_location(loc: Seq<String>, key: Seq<char>, segs: Seq<String>) -> bool {
    loc.len() == segs.len() + 1 && loc[0]@ == key && loc.drop_first() == segs
}

/// What a request is: its path, parameters, and the values derived from them.
pub struct RequestView {
    pub segments: Seq<String>,
    pub params: ImageParams,
    pub key: Option<Seq<char>>,
    pub content: ContentKind,
    pub format: OutputFormat,
    pub stage: Stage,
}

/// One image request in progress.
pub struct ImageRequest {
    segments: Vec<String>,
    params: ImageParams,
    key: Option<String>,
    content: ContentKind,
    format: OutputFormat,
    stage: Stage,
}

impl View for ImageRequest {
    type V = RequestView;

    closed spec fn view(&self) -> RequestView {
        RequestView {
            segments: self.segments@,
            params: self.params,
            key: match self.key {
                Some(k) => Some(k@),
                None => None,
            },
            content: self.content,
            format: self.format,
            stage: self.stage,
        }
    }
}

/// The event that a stage waits for.
pub open spec fn awaits(stage: Stage, event: Event) -> bool {
    match event {
        Event::Resolved(_) => stage == Stage::CheckCache || stage == Stage::CheckOriginal,
        Event::Loaded(_) => stage == Stage::ReadCache || stage == Stage::ReadOriginal,
    }
}

/// The key a request is cached under, if it has parameters at all.
pub open spec fn key_for(p: ImageParams) -> Option<Seq<char>> {
    if has_params(p) { Some(key_of(p)) } else { None }
}

/// The invariant of a request: its key is the one its parameters give, and
/// only a request with parameters ever consults the cache.
pub open spec fn well_formed(v: RequestView) -> bool {
    &&& v.key == key_for(v.params)
    &&& (v.stage == Stage::CheckCache || v.stage == Stage::ReadCache) ==> has_params(v.params)
}

/// The requested path as text: its segments joined by `/`.
pub open spec fn joined(segs: Seq<String>) -> Seq<char>
    decreases segs.len(),
{
    if segs.len() == 0 {
        Seq::empty()
    } else if segs.len() == 1 {
        segs[0]@
    } else {
        joined(segs.drop_last()) + seq!['/'] + segs.last()@
    }
}

/// The file name of the requested path: its last segment.
pub open spec fn file_name(segs: Seq<String>) -> Seq<char> {
    if segs.len() > 0 { segs.last()@ } else { Seq::empty() }
}

fn join_path(segments: &Vec<String>) -> (r: String)
    ensures
        r@ == joined(segments@),
{
    let mut text = String::new();
    let mut i: usize = 0;
    while i < segments.len()
        invariant
            i <= segments@.len(),
            text@ == joined(segments@.take(i as int)),
        decreases segments.len() - i,
    {
        proof {
            reveal_strlit("/");
            assert("/"@ =~= seq!['/']);
            assert(segments@.take(i + 1).drop_last() =~= segments@.take(i as int));
            if i == 0 {
                assert(text@ =~= Seq::<char>::empty());
            }
        }
        if i > 0 {
            text.append("/");
        }
        text.append(segments[i].as_str());
        i = i + 1;
        assert(text@ =~= joined(segments@.take(i as int)));
    }
    assert(segments@.take(segments@.len() as int) =~= segments@);
    text
}

fn copy_segments(segments: &Vec<String>, into: &mut Vec<String>)
    ensures
        final(into)@ == old(into)@ + segments@,
{
    let mut i: usize = 0;
    while i < segments.len()
        invariant
            i <= segments@.len(),
            into@ == old(into)@ + segments@.take(i as int),
        decreases segments.len() - i,
    {
        into.push(segments[i].clone());
        i = i + 1;
        assert(segments@.take(i as int) =~= segments@.take(i - 1).push(segments@[i - 1]));
    }
    assert(segments@.take(segments@.len() as int) =~= segments@);
}

fn original_location(segments: &Vec<String>) -> (r: Vec<String>)
    ensures
        r@ == segments@,
{
    let mut r: Vec<String> = Vec::new();
    copy_segments(segments, &mut r);
    assert(r@ =~= segments@);
    r
}

fn cache_location(key: &String, segments: &Vec<String>) -> (r: Vec<String>)
    ensures
        is_cache_location(r@, key@, segments@),
{
    let mut r: Vec<String> = Vec::new();
    r.push(key.clone());
    copy_segments(segments, &mut r);
    assert(r@.drop_first() =~= segments@);
    r
}

/// Two locations name the same file.
pub open spec fn same_path(a: Seq<String>, b: Seq<String>) -> bool {
    a.len() == b.len() && forall|i: int| 0 <= i < a.len() ==> #[trigger] a[i]@ == b[i]@
}

/// The entry that a fresh reply asks to store is the one that a later request
/// for the same path and parameters looks up: repeating a request hits the cache.
pub proof fn lemma_stored_entry_is_looked_up(
    stored: Seq<String>,
    looked_up: Seq<String>,
    segments: Seq<String>,
    params: ImageParams,
)
    requires
        is_cache_location(stored, key_of(params), segments),
        is_cache_location(looked_up, key_of(params), segments),
    ensures
        same_path(stored, looked_up),
{
    assert forall|i: int| 0 <= i < stored.len() implies #[trigger] stored[i]@ == looked_up[i]@ by {
        if i > 0 {
            assert(stored[i] == stored.drop_first()[i - 1]);
            assert(looked_up[i] == looked_up.drop_first()[i - 1]);
        }
    }
}

impl ImageRequest {
    /// Starts a request for the file at `segments` under the image root.
    /// A path with an unsafe segment is rejected at once; a request with
    /// parameters looks in the cache first; one without goes to the original.
    /// A zero width or height counts as absent.
    pub fn begin(segments: Vec<String>, params: ImageParams) -> (r: (ImageRequest, Action))
        ensures
            well_formed(r.0@),
            r.0@.segments == segments@,
            r.0@.params == normalized(params),
            r.0@.key == key_for(normalized(params)),
            r.0@.content == content_kind_of(path_extension(segments@)),
            r.0@.format == output_format_of(path_extension(segments@)),
            !segments_are_safe(segments@) ==> r.0@.stage == Stage::Done && r.1 matches Action::Reject(ServeError::InvalidPath),
            segments_are_safe(segments@) && has_params(normalized(params)) ==> r.0@.stage == Stage::CheckCache
                && (r.1 matches Action::Resolve(loc) && is_cache_location(loc@, key_of(normalized(params)), segments@)),
            segments_are_safe(segments@) && !has_params(normalized(params)) ==> r.0@.stage == Stage::CheckOriginal
                && (r.1 matches Action::Resolve(loc) && loc@ == segments@),
    {
        let params = params.normalized();
        let ext = request_extension(&segments);
        let content = content_type_for(ext);
        let format = output_format_for(ext);
        let key = params.cache_dir_name();
        let safe = is_safe_path(&segments);
        let action = if !safe {
            Action::Reject(ServeError::InvalidPath)
        } else {
            match &key {
                Some(k) => Action::Resolve(cache_location(k, &segments)),
                None => Action::Resolve(original_location(&segments)),
            }
        };
        let stage = if !safe {
            Stage::Done
        } else if key.is_some() {
            Stage::CheckCache
        } else {
            Stage::CheckOriginal
        };
        (ImageRequest { segments, params, key, content, format, stage }, action)
    }

    /// Where the request stands.
    pub fn stage(&self) -> (r: Stage)
        ensures
            r == self@.stage,
    {
        self.stage
    }

    /// Whether the request is waiting for `event`'s kind of report.
    pub fn expects(&self, event: &Event) -> (r: bool)
        ensures
            r == awaits(self@.stage, *event),
    {
        match event {
            Event::Resolved(_) => self.stage == Stage::CheckCache || self.stage == Stage::CheckOriginal,
            Event::Loaded(_) => self.stage == Stage::ReadCache || self.stage == Stage::ReadOriginal,
        }
    }

    fn to_original(&mut self) -> (r: Action)
        ensures
            final(self)@ == (RequestView { stage: Stage::CheckOriginal, ..old(self)@ }),
            r matches Action::Resolve(loc) && loc@ == old(self)@.segments,
    {
        self.stage = Stage::CheckOriginal;
        Action::Resolve(original_location(&self.segments))
    }

    fn finish(&mut self, action: Action) -> (r: Action)
        ensures
            final(self)@ == (RequestView { stage: Stage::Done, ..old(self)@ }),
            r == action,
    {
        self.stage = Stage::Done;
        action
    }

    /// Takes in the report the request waits for and says what to do next.
    pub fn step(&mut self, event: Event) -> (r: Action)
        requires
            well_formed(old(self)@),
            awaits(old(self)@.stage, event),
        ensures
            well_formed(final(self)@),
            final(self)@.segments == old(self)@.segments,
            final(self)@.params == old(self)@.params,
            // nothing outside the root is ever read
            r is Read ==> (event matches Event::Resolved(res) && check_of(res) is Inside),
            // nothing is stored for a request without parameters
            (r matches Action::Respond(reply) && reply.persist is Some) ==> has_params(old(self)@.params),
            final(self)@.key == old(self)@.key,
            final(self)@.content == old(self)@.content,
            final(self)@.format == old(self)@.format,
            // looking for a cache entry
            old(self)@.stage == Stage::CheckCache ==> (event matches Event::Resolved(res) && match check_of(res) {
                Check::Unresolvable => final(self)@.stage == Stage::Done
                    && r matches Action::Reject(ServeError::InvalidRoot),
                Check::Outside => final(self)@.stage == Stage::Done
                    && r matches Action::Reject(ServeError::InvalidPath),
                Check::Absent | Check::NotFile => final(self)@.stage == Stage::CheckOriginal
                    && (r matches Action::Resolve(loc) && loc@ == old(self)@.segments),
                Check::Inside => final(self)@.stage == Stage::ReadCache
                    && (r matches Action::Read(loc) && (old(self)@.key matches Some(k)
                    && is_cache_location(loc@, k, old(self)@.segments))),
            }),
            // reading a cache entry: a hit is answered with its bytes
            old(self)@.stage == Stage::ReadCache ==> (event matches Event::Loaded(data) && match data {
                Some(bytes) => final(self)@.stage == Stage::Done && (r matches Action::Respond(reply)
                    && reply.body@ == bytes@ && reply.source == Source::Cache
                    && reply.content == old(self)@.content && reply.persist is None),
                None => final(self)@.stage == Stage::CheckOriginal
                    && (r matches Action::Resolve(loc) && loc@ == old(self)@.segments),
            }),
            // looking for the original
            old(self)@.stage == Stage::CheckOriginal ==> (event matches Event::Resolved(res) && match check_of(res) {
                Check::Unresolvable => final(self)@.stage == Stage::Done
                    && r matches Action::Reject(ServeError::InvalidRoot),
                Check::Outside => final(self)@.stage == Stage::Done
                    && r matches Action::Reject(ServeError::InvalidPath),
                Check::Absent | Check::NotFile => final(self)@.stage == Stage::Done
                    && (r matches Action::Reject(ServeError::NotFound(p)) && p@ == joined(old(self)@.segments)),
                Check::Inside => final(self)@.stage == Stage::ReadOriginal
                    && (r matches Action::Read(loc) && loc@ == old(self)@.segments),
            }),
            // reading the original: served as it is without parameters,
            // transformed and offered for storing with them
            old(self)@.stage == Stage::ReadOriginal ==> final(self)@.stage == Stage::Done
                && (event matches Event::Loaded(data) && match data {
                None => (r matches Action::Reject(ServeError::ReadFailed(p)) && p@ == joined(old(self)@.segments)),
                Some(bytes) => match old(self)@.key {
                    None => (r matches Action::Respond(reply) && reply.body@ == bytes@
                        && reply.source == Source::Original && reply.content == old(self)@.content
                        && reply.persist is None),
                    Some(k) => match render_result(bytes@, file_name(old(self)@.segments), old(self)@.params, old(self)@.format) {
                        Ok(b) => (r matches Action::Respond(reply) && reply.body@ == b
                            && reply.source == Source::Fresh
                            && reply.content == old(self)@.content
                            && (reply.persist matches Some(loc)
                            && is_cache_location(loc@, k, old(self)@.segments))),
                        Err(f) => (r matches Action::Reject(e) && error_is(e, f)),
                    },
                },
            }),
    {
        match event {
            Event::Resolved(res) => {
                let checking_cache = self.stage == Stage::CheckCache;
                match res {
                    Resolution::RootUnresolvable => self.finish(Action::Reject(ServeError::InvalidRoot)),
                    Resolution::Missing => if checking_cache {
                        self.to_original()
                    } else {
                        let p = join_path(&self.segments);
                        self.finish(Action::Reject(ServeError::NotFound(p)))
                    },
                    Resolution::Found { root, target, is_file } => if !is_within(&root, &target) {
                        self.finish(Action::Reject(ServeError::InvalidPath))
                    } else if !is_file {
                        if checking_cache {
                            self.to_original()
                        } else {
                            let p = join_path(&self.segments);
                            self.finish(Action::Reject(ServeError::NotFound(p)))
                        }
                    } else if checking_cache {
                        match &self.key {
                            Some(k) => {
                                self.stage = Stage::ReadCache;
                                Action::Read(cache_location(k, &self.segments))
                            },
                            None => self.to_original(),
                        }
                    } else {
                        self.stage = Stage::ReadOriginal;
                        Action::Read(original_location(&self.segments))
                    },
                }
            },
            Event::Loaded(data) => {
                if self.stage == Stage::ReadCache {
                    match data {
                        Some(bytes) => {
                            let content = self.content;
                            self.finish(Action::Respond(Reply { content, body: bytes, source: Source::Cache, persist: None }))
                        },
                        None => self.to_original(),
                    }
                } else {
                    match data {
                        None => {
                            let p = join_path(&self.segments);
                            self.finish(Action::Reject(ServeError::ReadFailed(p)))
                        },
                        Some(bytes) => {
                            let content = self.content;
                            match &self.key {
                                None => self.finish(Action::Respond(Reply { content, body: bytes, source: Source::Original, persist: None })),
                                Some(k) => {
                                    let name: &str = if self.segments.len() > 0 {
                                        self.segments[self.segments.len() - 1].as_str()
                                    } else {
                                        proof {
                                            reveal_strlit("");
                                            assert(""@ =~= Seq::<char>::empty());
                                        }
                                        ""
                                    };
                                    match render(bytes.as_slice(), name, &self.params, self.format) {
                                        Ok(out) => {
                                            let loc = cache_location(k, &self.segments);
                                            self.finish(Action::Respond(Reply { content, body: out, source: Source::Fresh, persist: Some(loc) }))
                                        },
                                        Err(e) => self.finish(Action::Reject(e)),
                                    }
                                },
                            }
                        },
                    }
                }
            },
        }
    }
}

} // verus!
