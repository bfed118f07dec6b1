//! The canonical wire error envelope: a list of error objects, each with an
//! optional machine code, human detail, HTTP status and source pointer. This
//! shape is the only error contract a client may depend on.

use vstd::prelude::*;

use crate::seqs::find_first_index;

verus! {

/// Pointer to the part of a request an error is about.
pub struct Source {
    pub pointer: Option<String>,
    pub parameter: Option<String>,
}

/// One error object of the envelope.
pub struct Error {
    pub code: Option<String>,
    pub detail: Option<String>,
    pub id: Option<String>,
    pub source: Option<Source>,
    pub status: Option<u16>,
    pub title: Option<String>,
    pub meta: Option<Vec<(String, String)>>,
}

/// The envelope itself: a list of error objects.
pub struct ErrorsResponse {
    pub errors: Vec<Error>,
}

impl Default for Error {
    /// An error object with every field absent.
    fn default() -> (r: Self)
        ensures
            r.code is None,
            r.detail is None,
            r.id is None,
            r.source is None,
            r.status is None,
            r.title is None,
            r.meta is None,
    {
        Error {
            code: None,
            detail: None,
            id: None,
            source: None,
            status: None,
            title: None,
            meta: None,
        }
    }
}

impl Default for ErrorsResponse {
    /// An envelope with no errors yet.
    fn default() -> (r: Self)
        ensures
            r.errors@ == Seq::<Error>::empty(),
    {
        ErrorsResponse { errors: Vec::new() }
    }
}

impl ErrorsResponse {
    /// Appends one error object to the envelope.
    pub fn with_error(self, error: Error) -> (r: Self)
        ensures
            r.errors@ == self.errors@.push(error),
    {
        let mut this = self;
        this.errors.push(error);
        this
    }
}

/// Where `meta_put` leaves the key list: the first pair with the same key is
/// replaced, otherwise the pair is appended.
pub open spec fn meta_put(m: Seq<(String, String)>, kv: (String, String)) -> Seq<(String, String)> {
    match find_first_index(m, |e: (String, String)| e.0@ == kv.0@) {
        Some(i) => m.update(i, kv),
        None => m.push(kv),
    }
}

impl Error {
    /// Sets the machine-readable code.
    pub fn code(self, code: &str) -> (r: Self)
        ensures
            r.code matches Some(c) && c@ == code@,
            r.detail == self.detail && r.id == self.id && r.source == self.source && r.status
                == self.status && r.title == self.title && r.meta == self.meta,
    {
        let mut this = self;
        this.code = Some(code.to_owned());
        this
    }

    /// Sets the human-readable detail.
    pub fn detail(self, description: &str) -> (r: Self)
        ensures
            r.detail matches Some(d) && d@ == description@,
            r.code == self.code && r.id == self.id && r.source == self.source && r.status
                == self.status && r.title == self.title && r.meta == self.meta,
    {
        let mut this = self;
        this.detail = Some(description.to_owned());
        this
    }

    /// Sets the error id.
    pub fn id(self, id: &str) -> (r: Self)
        ensures
            r.id matches Some(i) && i@ == id@,
            r.code == self.code && r.detail == self.detail && r.source == self.source && r.status
                == self.status && r.title == self.title && r.meta == self.meta,
    {
        let mut this = self;
        this.id = Some(id.to_owned());
        this
    }

    /// Sets the HTTP status.
    pub fn status(self, status_code: u16) -> (r: Self)
        ensures
            r.status == Some(status_code),
            r.code == self.code && r.detail == self.detail && r.id == self.id && r.source
                == self.source && r.title == self.title && r.meta == self.meta,
    {
        let mut this = self;
        this.status = Some(status_code);
        this
    }

    /// Sets the short title.
    pub fn title(self, title: &str) -> (r: Self)
        ensures
            r.title matches Some(t) && t@ == title@,
            r.code == self.code && r.detail == self.detail && r.id == self.id && r.source
                == self.source && r.status == self.status && r.meta == self.meta,
    {
        let mut this = self;
        this.title = Some(title.to_owned());
        this
    }

    /// Points the error at a request parameter.
    pub fn parameter(self, source: &str) -> (r: Self)
        ensures
            r.source matches Some(s) && s.pointer is None && (s.parameter matches Some(p) && p@
                == source@),
            r.code == self.code && r.detail == self.detail && r.id == self.id && r.status
                == self.status && r.title == self.title && r.meta == self.meta,
    {
        let mut this = self;
        this.source = Some(Source { pointer: None, parameter: Some(source.to_owned()) });
        this
    }

    /// Points the error at a body location.
    pub fn pointer(self, source: &str) -> (r: Self)
        ensures
            r.source matches Some(s) && s.parameter is None && (s.pointer matches Some(p) && p@
                == source@),
            r.code == self.code && r.detail == self.detail && r.id == self.id && r.status
                == self.status && r.title == self.title && r.meta == self.meta,
    {
        let mut this = self;
        this.source = Some(Source { pointer: Some(source.to_owned()), parameter: None });
        this
    }

    /// Adds or replaces one key/value pair of the metadata map.
    pub fn meta_field(self, key: &str, value: &str) -> (r: Self)
        ensures
            r.code == self.code && r.detail == self.detail && r.id == self.id && r.source
                == self.source && r.status == self.status && r.title == self.title,
            r.meta matches Some(m) && (match self.meta {
                Some(old_m) => exists|kv: (String, String)|
                    kv.0@ == key@ && kv.1@ == value@ && m@ == meta_put(old_m@, kv),
                None => m@.len() == 1 && m@[0].0@ == key@ && m@[0].1@ == value@,
            }),
    {
        let key = key.to_owned();
        let value = value.to_owned();
        let mut this = self;
        match this.meta {
            Some(mut map) => {
                let ghost old_map = map@;
                let n = map.len();
                let mut idx: usize = n;
                let mut i: usize = 0;
                while i < n
                    invariant
                        n == map.len(),
                        0 <= i <= n,
                        idx == n || (idx < i && map@[idx as int].0@ == key@),
                        idx == n ==> forall|k: int| 0 <= k < i ==> map@[k].0@ != key@,
                        idx < n ==> forall|k: int| 0 <= k < idx ==> map@[k].0@ != key@,
                    decreases n - i,
                {
                    if idx == n && map[i].0.eq(&key) {
                        idx = i;
                    }
                    i += 1;
                }
                let kv = (key, value);
                let ghost gkv = kv;
                proof {
                    let p = |e: (String, String)| e.0@ == kv.0@;
                    if idx < n {
                        crate::seqs::lemma_find_first_index_is(map@, p, idx as int);
                    } else {
                        crate::seqs::lemma_find_first_index_none(map@, p);
                    }
                }
                if idx < n {
                    map.set(idx, kv);
                } else {
                    map.push(kv);
                }
                proof {
                    assert(gkv.0@ == key@ && gkv.1@ == value@ && map@ == meta_put(old_map, gkv));
                }
                this.meta = Some(map);
            },
            None => {
                let mut map: Vec<(String, String)> = Vec::new();
                map.push((key, value));
                this.meta = Some(map);
            },
        }
        this
    }
}

} // verus!
