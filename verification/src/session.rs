//! The streams over which sessions hear from a child.
//!
//! `T` is the sending end of a stream, whatever carries it.

use vstd::prelude::*;

use crate::table::Table;

verus! {

/// One connected client: its session id, and the sending end of its stream.
pub struct SseSession<T> {
    pub id: String,
    pub tx: T,
}

/// The sending ends by session id.
pub struct SessionRegistry<T> {
    inner: Table<T>,
}

impl<T> View for SessionRegistry<T> {
    type V = Map<Seq<char>, T>;

    closed spec fn view(&self) -> Map<Seq<char>, T> {
        self.inner@
    }
}

impl<T> SessionRegistry<T> {
    /// The session ids in the order in which `all` goes through them.
    pub closed spec fn ids(&self) -> Seq<Seq<char>> {
        self.inner.names()
    }

    /// No session is registered.
    pub fn new() -> (registry: Self)
        ensures
            registry@ == Map::<Seq<char>, T>::empty(),
    {
        SessionRegistry { inner: Table::new() }
    }

    /// Registers a session. A later stream of one session takes the place of the earlier.
    pub fn register(&mut self, id: String, tx: T)
        ensures
            final(self)@ == old(self)@.insert(id@, tx),
    {
        let _ = self.inner.insert(id, tx);
    }

    /// Forgets a session, if it is there.
    pub fn remove(&mut self, id: &str)
        ensures
            final(self)@ == old(self)@.remove(id@),
    {
        let _ = self.inner.remove(id);
    }

    /// The sending end of a session's stream.
    pub fn get(&self, id: &str) -> (tx: Option<&T>)
        ensures
            tx is Some <==> self@.contains_key(id@),
            tx matches Some(t) ==> *t == self@[id@],
    {
        self.inner.get(id)
    }

    /// The sending end of every session's stream, each session once.
    pub fn all(&self) -> (all: Vec<&T>)
        ensures
            self.ids().no_duplicates(),
            self.ids().to_set() == self@.dom(),
            all@.len() == self.ids().len(),
            forall|i: int| 0 <= i < all@.len() ==> *#[trigger] all@[i] == self@[self.ids()[i]],
    {
        let count: usize = self.inner.len();
        let mut all: Vec<&T> = Vec::new();
        let mut i: usize = 0;
        while i < count
            invariant
                i <= count == self.ids().len(),
                all@.len() == i,
                self.ids() == self.inner.names(),
                self@ == self.inner@,
                forall|j: int| 0 <= j < i ==> *#[trigger] all@[j] == self@[self.ids()[j]],
            decreases count - i,
        {
            all.push(self.inner.row(i).1);
            i = i + 1;
        }
        all
    }

    /// How many sessions are registered.
    pub fn len(&self) -> (n: usize)
        ensures
            n == self@.len(),
            self@.dom().finite(),
    {
        self.inner.len()
    }

    /// Whether no session is registered.
    pub fn is_empty(&self) -> (empty: bool)
        ensures
            empty == (self@ == Map::<Seq<char>, T>::empty()),
    {
        let empty: bool = self.inner.is_empty();
        assert(empty ==> self@ =~= Map::<Seq<char>, T>::empty());
        empty
    }
}

impl<T> Default for SessionRegistry<T> {
    fn default() -> (registry: Self)
        ensures
            registry@ == Map::<Seq<char>, T>::empty(),
    {
        SessionRegistry::new()
    }
}

/// A lower-case hexadecimal digit.
pub open spec fn is_hex(c: char) -> bool {
    '0' <= c <= '9' || 'a' <= c <= 'f'
}

/// The text of a random UUID: groups of 8, 4, 4, 4 and 12 hexadecimal digits between hyphens,
/// with the version and the variant of a random one.
pub open spec fn is_uuid(s: Seq<char>) -> bool {
    &&& s.len() == 36
    &&& forall|i: int|
        0 <= i < 36 ==> if i == 8 || i == 13 || i == 18 || i == 23 {
            #[trigger] s[i] == '-'
        } else {
            is_hex(s[i])
        }
    &&& s[14] == '4'
    &&& s[19] == '8' || s[19] == '9' || s[19] == 'a' || s[19] == 'b'
}

/// `uuid::Uuid::new_v4`, as text. Only the shape of the text is known: its digits are random.
/// That no two are alike is not said. It panics where the system has no random bytes to give.
#[verifier::external_body]
fn random_uuid() -> (id: String)
    ensures
        is_uuid(id@),
{
    uuid::Uuid::new_v4().to_string()
}

/// The id of a new session.
pub fn new_session_id() -> (id: String)
    ensures
        is_uuid(id@),
{
    random_uuid()
}

/// A session id has the shape of a random UUID and no other: thirty-six characters, of which four
/// are hyphens in their places and the others hexadecimal digits in lower case.
pub proof fn law_session_ids_have_the_shape_of_a_uuid(s: Seq<char>, i: int)
    requires
        is_uuid(s),
    ensures
        s.len() == 36,
        s[8] == '-' && s[13] == '-' && s[18] == '-' && s[23] == '-',
        0 <= i < 36 && i != 8 && i != 13 && i != 18 && i != 23 ==> '0' <= s[i] <= '9' || 'a' <= s[i]
            <= 'f',
        s[14] == '4',
        s[19] == '8' || s[19] == '9' || s[19] == 'a' || s[19] == 'b',
{
}

} // verus!
