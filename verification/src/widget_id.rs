//! Widget identifiers and their stable numeric accessibility keys.
use std::hash::{DefaultHasher, Hasher};
use vstd::prelude::*;
use vstd::std_specs::hash::DefaultHasherAdditionalSpecFns;

verus! {

/// What an [`Id`] denotes: a counter value or a custom name.
pub enum IdView {
    Unique(usize),
    Custom(Seq<char>),
}

/// The identifier of a generic widget.
#[derive(Debug, Hash)]
pub struct Id(Internal);

#[derive(Debug, Hash)]
enum Internal {
    Unique(usize),
    Custom(String),
}

impl View for Id {
    type V = IdView;

    closed spec fn view(&self) -> IdView {
        match &self.0 {
            Internal::Unique(n) => IdView::Unique(*n),
            Internal::Custom(name) => IdView::Custom(name@),
        }
    }
}

/// Whether an identifier can be made: a unique id's counter value stays
/// below `u32::MAX`, the start of the window node keys.
pub open spec fn valid_id(id: IdView) -> bool {
    id matches IdView::Unique(n) ==> n < u32::MAX
}

/// The source of unique widget identifiers: the counter value that the next
/// call of [`Id::unique`] hands out.
pub struct IdCounter {
    next: usize,
}

impl View for IdCounter {
    type V = usize;

    closed spec fn view(&self) -> usize {
        self.next
    }
}

impl IdCounter {
    /// A counter that starts at zero.
    pub fn new() -> (c: IdCounter)
        ensures
            c@ == 0,
    {
        IdCounter { next: 0 }
    }

    /// The counter value that the next call of [`Id::unique`] hands out.
    pub fn next_value(&self) -> (r: usize)
        ensures
            r == self@,
    {
        self.next
    }
}

/// The bit that every key of a custom identifier has set.
pub open spec fn custom_key_bit() -> u64 {
    0x8000_0000_0000_0000u64
}

/// The writes that std's `Hash` impl for `str` makes into a hasher for a
/// string with these characters. Their encoding is std's to choose; it
/// depends on the string alone.
pub uninterp spec fn str_hash_writes(name: Seq<char>) -> Seq<Seq<u8>>;

/// The key of a custom name: a new std default hasher fed the name through
/// `str`'s `Hash`, finished, with the top bit forced.
pub open spec fn custom_key(name: Seq<char>) -> u64 {
    DefaultHasher::spec_finish(str_hash_writes(name)) | custom_key_bit()
}

/// The stable numeric accessibility key of an identifier.
pub open spec fn key_of(id: IdView) -> u64 {
    match id {
        IdView::Unique(n) => n as u64,
        IdView::Custom(name) => custom_key(name),
    }
}

/// Feeds `name` into `state` through std's `Hash` impl for `str`.
///
/// Trusted: in vstd's model of `DefaultHasher` (the sequence of writes made
/// into it), `<str as Hash>::hash` appends the writes that it makes for this
/// string. Which writes those are (std's `Hasher::write_str` leaves its
/// encoding open) is not stated; only that they depend on the string alone.
#[verifier::external_body]
fn hash_str(name: &str, state: &mut DefaultHasher)
    ensures
        final(state)@ == old(state)@ + str_hash_writes(name@),
{
    std::hash::Hash::hash(name, state)
}

impl Id {
    /// Creates a new [`Id`] from a static `str`.
    pub fn new(id: &'static str) -> (r: Id)
        ensures
            r@ == IdView::Custom(id@),
            valid_id(r@),
    {
        Id(Internal::Custom(id.to_owned()))
    }

    /// Creates a unique [`Id`] from `counter`, which moves on by one.
    ///
    /// Unique ids stay below `u32::MAX`, where the window node keys begin.
    pub fn unique(counter: &mut IdCounter) -> (r: Id)
        requires
            old(counter)@ < u32::MAX,
        ensures
            r@ == IdView::Unique(old(counter)@),
            valid_id(r@),
            final(counter)@ == old(counter)@ + 1,
    {
        let id = counter.next;
        counter.next = counter.next + 1;
        Id(Internal::Unique(id))
    }

    /// A stable numeric key for accessibility node identity.
    ///
    /// Unique ids map to their counter value (below the window node key
    /// range starting at `u32::MAX`); custom ids hash their name with the top
    /// bit forced, so the same name yields the same key.
    pub fn a11y_key(&self) -> (key: u64)
        ensures
            key == key_of(self@),
            self@ matches IdView::Unique(n) ==> key == n,
            self@ matches IdView::Custom(name) ==> key == DefaultHasher::spec_finish(
                str_hash_writes(name),
            ) | 0x8000_0000_0000_0000u64,
    {
        match &self.0 {
            Internal::Unique(id) => *id as u64,
            Internal::Custom(name) => {
                let mut hasher = DefaultHasher::new();
                hash_str(name.as_str(), &mut hasher);
                proof {
                    assert(hasher@ =~= str_hash_writes(name@));
                }
                hasher.finish() | 0x8000_0000_0000_0000u64
            },
        }
    }
}

impl Clone for Id {
    fn clone(&self) -> (r: Self)
        ensures
            r == *self,
    {
        match &self.0 {
            Internal::Unique(n) => Id(Internal::Unique(*n)),
            Internal::Custom(name) => Id(Internal::Custom(name.clone())),
        }
    }
}

impl PartialEq for Id {
    fn eq(&self, other: &Id) -> (r: bool) {
        match (&self.0, &other.0) {
            (Internal::Unique(a), Internal::Unique(b)) => *a == *b,
            (Internal::Custom(a), Internal::Custom(b)) => *a == *b,
            _ => false,
        }
    }
}

impl vstd::std_specs::cmp::PartialEqSpecImpl for Id {
    open spec fn obeys_eq_spec() -> bool {
        true
    }

    open spec fn eq_spec(&self, other: &Id) -> bool {
        self@ == other@
    }
}

impl Eq for Id {
}

impl From<&'static str> for Id {
    fn from(value: &'static str) -> (r: Id)
        ensures
            r@ == IdView::Custom(value@),
            valid_id(r@),
    {
        Id::new(value)
    }
}

/// Only the view of the result is stated here (`from`'s own `ensures`): a
/// `String` cannot be built from a `str` in a specification.
impl vstd::std_specs::convert::FromSpecImpl<&'static str> for Id {
    open spec fn obeys_from_spec() -> bool {
        false
    }

    open spec fn from_spec(v: &'static str) -> Id {
        vstd::pervasive::arbitrary()
    }
}

impl vstd::std_specs::convert::FromSpecImpl<String> for Id {
    open spec fn obeys_from_spec() -> bool {
        true
    }

    closed spec fn from_spec(v: String) -> Id {
        Id(Internal::Custom(v))
    }
}

impl From<String> for Id {
    fn from(value: String) -> (r: Id)
        ensures
            r@ == IdView::Custom(value@),
            valid_id(r@),
    {
        Id(Internal::Custom(value))
    }
}

} // verus!
