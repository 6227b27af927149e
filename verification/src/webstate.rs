//! The state behind a small CRUD web front: a store of named objects and
//! the summary a HTTP client keeps of a response. The handlers that parse
//! requests and serialise replies live with the caller; the decisions on
//! the store are made — and proved — here.

use vstd::prelude::*;

verus! {

/// A stored object.
#[derive(Clone, Debug)]
pub struct MyObject {
    pub id: u32,
    pub name: String,
}

impl MyObject {
    /// A field-for-field copy of the object.
    pub fn duplicate(&self) -> (r: MyObject)
        ensures
            r == *self,
    {
        MyObject { id: self.id, name: self.name.clone() }
    }
}

/// The shared state of the object service.
pub struct AppState {
    objects: Vec<MyObject>,
}

impl View for AppState {
    type V = Seq<MyObject>;

    closed spec fn view(&self) -> Seq<MyObject> {
        self.objects@
    }
}

impl AppState {
    /// A state holding no objects.
    pub fn new() -> (r: AppState)
        ensures
            r@.len() == 0,
    {
        AppState { objects: Vec::new() }
    }

    pub fn len(&self) -> (r: usize)
        ensures
            r == self@.len(),
    {
        self.objects.len()
    }

    /// Stores one more object, after all the others.
    pub fn create_object(&mut self, obj: MyObject)
        ensures
            final(self)@ == old(self)@.push(obj),
    {
        self.objects.push(obj);
    }

    /// The first object stored under `id`, if any.
    pub fn get_object(&self, id: u32) -> (r: Option<MyObject>)
        ensures
            match r {
                Some(o) => exists|i: int|
                    0 <= i < self@.len() && #[trigger] self@[i] == o && o.id == id,
                None => forall|i: int| 0 <= i < self@.len() ==> (#[trigger] self@[i]).id != id,
            },
            r matches Some(o) ==> exists|i: int|
                0 <= i < self@.len() && #[trigger] self@[i] == o && forall|j: int|
                    0 <= j < i ==> (#[trigger] self@[j]).id != id,
    {
        let n = self.objects.len();
        let mut i: usize = 0;
        while i < n
            invariant
                0 <= i <= n,
                n == self@.len(),
                forall|j: int| 0 <= j < i ==> (#[trigger] self@[j]).id != id,
            decreases n - i,
        {
            if self.objects[i].id == id {
                return Some(self.objects[i].duplicate());
            }
            i = i + 1;
        }
        None
    }

    /// Every stored object, in storage order.
    pub fn get_all_objects(&self) -> (r: Vec<MyObject>)
        ensures
            r@ == self@,
    {
        let n = self.objects.len();
        let mut out: Vec<MyObject> = Vec::new();
        let mut i: usize = 0;
        while i < n
            invariant
                0 <= i <= n,
                n == self@.len(),
                out@ == self@.subrange(0, i as int),
            decreases n - i,
        {
            out.push(self.objects[i].duplicate());
            proof {
                assert(out@ =~= self@.subrange(0, i + 1));
            }
            i = i + 1;
        }
        proof {
            assert(self@.subrange(0, n as int) =~= self@);
        }
        out
    }
}

/// What a HTTP client remembers of one response.
#[derive(Clone, Debug)]
pub struct HttpResponse {
    pub url: String,
    pub status: u16,
    pub response_time_ms: u64,
    pub content_length: Option<usize>,
}

impl HttpResponse {
    /// Whether the status is in the success class.
    pub fn is_success(&self) -> (r: bool)
        ensures
            r == (200 <= self.status < 300),
    {
        200 <= self.status && self.status < 300
    }
}

} // verus!
