//! Registries that pick a factory by content type.

use vstd::prelude::*;
use crate::api_error::ApiError;

verus! {

/// Factories keyed by the content type they serve; registering a second
/// factory for a content type replaces the first.
pub struct FactoryRegistry<F> {
    content_types: Vec<String>,
    factories: Vec<F>,
}

impl<F> FactoryRegistry<F> {
    /// The registered content types, in the order they were first registered.
    pub closed spec fn spec_types(&self) -> Seq<Seq<char>> {
        self.content_types@.map_values(|s: String| s@)
    }

    /// The factories, in the same order.
    pub closed spec fn spec_factories(&self) -> Seq<F> {
        self.factories@
    }

    #[verifier::type_invariant]
    closed spec fn inv(self) -> bool {
        &&& self.content_types@.len() == self.factories@.len()
        &&& self.spec_types().no_duplicates()
    }

    /// Whether `content_type` has a factory.
    pub open spec fn spec_has(&self, content_type: Seq<char>) -> bool {
        self.spec_types().contains(content_type)
    }

    /// The factory registered for `content_type` (meaningful where `spec_has`).
    pub open spec fn spec_get(&self, content_type: Seq<char>) -> F {
        self.spec_factories()[self.spec_types().index_of(content_type)]
    }

    pub fn new() -> (r: Self)
        ensures
            r.spec_types().len() == 0,
            r.spec_factories().len() == 0,
    {
        let r = FactoryRegistry { content_types: Vec::new(), factories: Vec::new() };
        assert(r.spec_types() =~= Seq::<Seq<char>>::empty());
        r
    }

    fn find(&self, content_type: &str) -> (r: Option<usize>)
        ensures
            r is Some == self.spec_has(content_type@),
            r matches Some(i) ==> i == self.spec_types().index_of(content_type@) && i < self.spec_factories().len(),
    {
        proof { use_type_invariant(self); }
        let key = String::from_str(content_type);
        let mut i: usize = 0;
        while i < self.content_types.len()
            invariant
                i <= self.content_types@.len(),
                key@ == content_type@,
                self.content_types@.len() == self.factories@.len(),
                self.spec_types().no_duplicates(),
                forall|j: int| 0 <= j < i ==> self.spec_types()[j] != content_type@,
            decreases self.content_types.len() - i,
        {
            if self.content_types[i] == key {
                assert(self.spec_types()[i as int] == content_type@);
                proof { self.spec_types().index_of_first(content_type@); }
                assert(self.spec_types().contains(content_type@));
                let ghost k = self.spec_types().index_of(content_type@);
                assert(self.spec_types()[k] == content_type@);
                return Some(i);
            }
            i = i + 1;
        }
        assert(!self.spec_types().contains(content_type@));
        None
    }

    /// Registers `factory` for `content_type`, replacing any factory it had.
    pub fn register(&mut self, content_type: String, factory: F)
        ensures
            final(self).spec_has(content_type@),
            final(self).spec_get(content_type@) == factory,
            forall|t: Seq<char>| t != content_type@ ==> (final(self).spec_has(t) == old(self).spec_has(t)
                && (old(self).spec_has(t) ==> final(self).spec_get(t) == old(self).spec_get(t))),
    {
        proof { use_type_invariant(&*self); }
        let found = self.find(content_type.as_str());
        let mut whole = FactoryRegistry::new();
        std::mem::swap(&mut whole, self);
        let FactoryRegistry { mut content_types, mut factories } = whole;
        let ghost old_types = content_types@.map_values(|s: String| s@);
        let ghost old_factories = factories@;
        let ghost key = content_type@;
        match found {
            Some(i) => {
                factories.set(i, factory);
            },
            None => {
                content_types.push(content_type);
                factories.push(factory);
            },
        }
        let ghost new_types = content_types@.map_values(|s: String| s@);
        proof {
            if found is None {
                assert(new_types =~= old_types.push(key));
                assert(new_types.no_duplicates()) by {
                    assert forall|a: int, b: int| 0 <= a < b < new_types.len() implies new_types[a] != new_types[b] by {
                        if b == old_types.len() {
                            assert(old_types[a] == new_types[a]);
                            assert(old_types.contains(new_types[a]));
                        }
                    }
                }
            } else {
                assert(new_types =~= old_types);
            }
        }
        *self = FactoryRegistry { content_types, factories };
        proof {
            lemma_index_of_distinct(old_types, key);
            lemma_index_of_distinct(new_types, key);
            match found {
                Some(i) => {
                    assert(old_types[i as int] == key);
                    assert(new_types[i as int] == key);
                    assert(self.factories@[i as int] == factory);
                },
                None => {
                    assert(new_types[old_types.len() as int] == key);
                },
            }
            assert(self.spec_has(key));
            assert forall|t: Seq<char>| t != key implies (self.spec_has(t) == old(self).spec_has(t)
                && (old(self).spec_has(t) ==> self.spec_get(t) == old(self).spec_get(t))) by {
                if old_types.contains(t) {
                    lemma_index_of_distinct(old_types, t);
                    let j = old_types.index_of(t);
                    assert(new_types[j] == t);
                    lemma_index_of_distinct(new_types, t);
                }
                if new_types.contains(t) {
                    let j = new_types.index_of(t);
                    lemma_index_of_distinct(new_types, t);
                    assert(old_types[j] == t);
                }
            }
        }
    }

    /// The factory registered for `content_type`, if any.
    pub fn get(&self, content_type: &str) -> (r: Option<&F>)
        ensures
            r is Some == self.spec_has(content_type@),
            r matches Some(f) ==> *f == self.spec_get(content_type@),
    {
        match self.find(content_type) {
            Some(i) => Some(&self.factories[i]),
            None => None,
        }
    }
}

impl<F> FactoryRegistry<F> {
    /// The factory that reads a body of `content_type`: the registered one,
    /// or, for a content type without one, the error a registry of parse-node
    /// factories answers.
    pub fn parse_factory_for(&self, content_type: &str) -> (r: Result<&F, ApiError>)
        ensures
            self.spec_has(content_type@) ==> (r matches Ok(f) && *f == self.spec_get(content_type@)),
            !self.spec_has(content_type@) ==> (r matches Err(e) && e.status_code == 0
                && e.message@ == no_parse_factory_message(content_type@)),
    {
        match self.get(content_type) {
            Some(f) => Ok(f),
            None => Err(no_parse_factory_error(content_type)),
        }
    }

    /// Reads with the factory registered for `content_type`: `read` is
    /// called on it once and its answer is the answer; for a content type
    /// without one, the error a registry of parse-node factories answers.
    pub fn dispatch_parse<R, G: Fn(&F) -> Result<R, ApiError>>(&self, content_type: &str, read: G) -> (r: Result<R, ApiError>)
        requires
            forall|f: &F| #[trigger] read.requires((f,)),
        ensures
            self.spec_has(content_type@) ==> read.ensures((&self.spec_get(content_type@),), r),
            !self.spec_has(content_type@) ==> (r matches Err(e) && e.status_code == 0
                && e.message@ == no_parse_factory_message(content_type@)),
    {
        match self.parse_factory_for(content_type) {
            Ok(f) => read(f),
            Err(e) => Err(e),
        }
    }

    /// Writes with the factory registered for `content_type`: `make` is
    /// called on it once and its answer is the answer; for a content type
    /// without one, the error a registry of writer factories answers.
    pub fn dispatch_writer<R, G: Fn(&F) -> Result<R, ApiError>>(&self, content_type: &str, make: G) -> (r: Result<R, ApiError>)
        requires
            forall|f: &F| #[trigger] make.requires((f,)),
        ensures
            self.spec_has(content_type@) ==> make.ensures((&self.spec_get(content_type@),), r),
            !self.spec_has(content_type@) ==> (r matches Err(e) && e.status_code == 0
                && e.message@ == no_writer_factory_message(content_type@)),
    {
        match self.writer_factory_for(content_type) {
            Ok(f) => make(f),
            Err(e) => Err(e),
        }
    }

    /// The factory that writes a body of `content_type`: the registered one,
    /// or, for a content type without one, the error a registry of writer
    /// factories answers.
    pub fn writer_factory_for(&self, content_type: &str) -> (r: Result<&F, ApiError>)
        ensures
            self.spec_has(content_type@) ==> (r matches Ok(f) && *f == self.spec_get(content_type@)),
            !self.spec_has(content_type@) ==> (r matches Err(e) && e.status_code == 0
                && e.message@ == no_writer_factory_message(content_type@)),
    {
        match self.get(content_type) {
            Some(f) => Ok(f),
            None => Err(no_writer_factory_error(content_type)),
        }
    }
}

/// In a sequence without repeats, `index_of` finds the one place of an element.
proof fn lemma_index_of_distinct(s: Seq<Seq<char>>, x: Seq<char>)
    requires
        s.no_duplicates(),
    ensures
        s.contains(x) ==> 0 <= s.index_of(x) < s.len() && s[s.index_of(x)] == x,
        forall|i: int| 0 <= i < s.len() && s[i] == x ==> s.index_of(x) == i,
{
    if s.contains(x) {
        s.index_of_first(x);
    }
}

/// The message of the error for a content type without a parse-node factory.
pub open spec fn no_parse_factory_message(content_type: Seq<char>) -> Seq<char> {
    "no parse node factory registered for content type '"@ + content_type + "'"@
}

/// The message of the error for a content type without a writer factory.
pub open spec fn no_writer_factory_message(content_type: Seq<char>) -> Seq<char> {
    "no serialization writer factory registered for content type '"@ + content_type + "'"@
}

/// The error for a content type that has no parse-node factory.
pub fn no_parse_factory_error(content_type: &str) -> (r: ApiError)
    ensures
        r.status_code == 0,
        r.message@ == no_parse_factory_message(content_type@),
{
    let mut m = String::from_str("no parse node factory registered for content type '");
    m.append(content_type);
    m.append("'");
    ApiError::new(0, m.as_str())
}

/// The error for a content type that has no writer factory.
pub fn no_writer_factory_error(content_type: &str) -> (r: ApiError)
    ensures
        r.status_code == 0,
        r.message@ == no_writer_factory_message(content_type@),
{
    let mut m = String::from_str("no serialization writer factory registered for content type '");
    m.append(content_type);
    m.append("'");
    ApiError::new(0, m.as_str())
}

} // verus!
