use vstd::prelude::*;

verus! {

/// The server's credential store: a username maps to its password.
///
/// Passwords are stored and compared as plain text.
pub struct UserDatabase {
    entries: Vec<(String, String)>,
    view: Ghost<Map<Seq<char>, Seq<char>>>,
}

impl UserDatabase {
    /// The stored pairs, username to password.
    pub closed spec fn users(&self) -> Map<Seq<char>, Seq<char>> {
        self.view@
    }

    /// Usernames are unique in `entries`, and `view` holds exactly its pairs.
    pub closed spec fn wf(&self) -> bool {
        &&& forall|i: int, j: int|
            0 <= i < j < self.entries@.len() ==> #[trigger] self.entries@[i].0@
                != #[trigger] self.entries@[j].0@
        &&& forall|i: int|
            0 <= i < self.entries@.len() ==> self.view@.contains_key(#[trigger] self.entries@[i].0@)
                && self.view@[self.entries@[i].0@] == self.entries@[i].1@
        &&& forall|u: Seq<char>| #[trigger]
            self.view@.contains_key(u) ==> exists|i: int|
                0 <= i < self.entries@.len() && #[trigger] self.entries@[i].0@ == u
    }

    pub fn new() -> (r: Self)
        ensures
            r.wf(),
            r.users() == Map::<Seq<char>, Seq<char>>::empty(),
    {
        UserDatabase { entries: Vec::new(), view: Ghost(Map::empty()) }
    }

    /// The index of `username` in `entries`, if it is stored.
    fn find(&self, username: &String) -> (r: Option<usize>)
        requires
            self.wf(),
        ensures
            r matches Some(i) ==> i < self.entries@.len() && self.entries@[i as int].0@
                == username@,
            r is None ==> !self.users().contains_key(username@),
    {
        let mut i: usize = 0;
        while i < self.entries.len()
            invariant
                i <= self.entries@.len(),
                forall|j: int| 0 <= j < i ==> #[trigger] self.entries@[j].0@ != username@,
            decreases self.entries@.len() - i,
        {
            if self.entries[i].0 == *username {
                return Some(i);
            }
            i = i + 1;
        }
        None
    }

    /// Stores `password` for `username`, replacing any earlier one.
    pub fn add_user(&mut self, username: String, password: String)
        requires
            old(self).wf(),
        ensures
            final(self).wf(),
            final(self).users() == old(self).users().insert(username@, password@),
    {
        let ghost new_view = self.view@.insert(username@, password@);
        match self.find(&username) {
            Some(i) => {
                self.entries.set(i, (username, password));
            },
            None => {
                self.entries.push((username, password));
            },
        }
        self.view = Ghost(new_view);
        proof {
            assert forall|u: Seq<char>| #[trigger] self.view@.contains_key(u) implies exists|i: int|
                0 <= i < self.entries@.len() && #[trigger] self.entries@[i].0@ == u by {
                if u != self.entries@[self.entries@.len() - 1].0@ {
                    let k = choose|k: int| 0 <= k < old(self).entries@.len() && #[trigger] old(
                        self,
                    ).entries@[k].0@ == u;
                    assert(self.entries@[k].0@ == u);
                }
            }
        }
    }

    /// Whether `(username, password)` is exactly a stored pair.
    pub fn authenticate(&self, username: &str, password: &str) -> (r: bool)
        requires
            self.wf(),
        ensures
            r == (self.users().contains_key(username@) && self.users()[username@] == password@),
    {
        let name: String = username.to_owned();
        let pass: String = password.to_owned();
        match self.find(&name) {
            Some(i) => self.entries[i].1 == pass,
            None => false,
        }
    }

    /// Removes `username`; returns whether it was stored.
    pub fn remove_user(&mut self, username: &str) -> (r: bool)
        requires
            old(self).wf(),
        ensures
            final(self).wf(),
            r == old(self).users().contains_key(username@),
            final(self).users() == old(self).users().remove(username@),
    {
        let name: String = username.to_owned();
        match self.find(&name) {
            Some(i) => {
                let ghost new_view = self.view@.remove(username@);
                self.entries.remove(i);
                self.view = Ghost(new_view);
                proof {
                    assert forall|u: Seq<char>| #[trigger] self.view@.contains_key(u) implies exists|
                        k: int,
                    | 0 <= k < self.entries@.len() && #[trigger] self.entries@[k].0@ == u by {
                        let k = choose|k: int| 0 <= k < old(self).entries@.len() && #[trigger] old(
                            self,
                        ).entries@[k].0@ == u;
                        if k < i {
                            assert(self.entries@[k].0@ == u);
                        } else {
                            assert(k != i);
                            assert(self.entries@[k - 1].0@ == u);
                        }
                    }
                }
                true
            },
            None => {
                assert(self.view@.remove(username@) =~= self.view@);
                false
            },
        }
    }

    /// The stored pairs, each username once.
    pub fn entries(&self) -> (r: Vec<(String, String)>)
        requires
            self.wf(),
        ensures
            forall|i: int|
                0 <= i < r@.len() ==> self.users().contains_key(#[trigger] r@[i].0@)
                    && self.users()[r@[i].0@] == r@[i].1@,
            forall|u: Seq<char>| #[trigger]
                self.users().contains_key(u) ==> exists|i: int|
                    0 <= i < r@.len() && #[trigger] r@[i].0@ == u,
            forall|i: int, j: int|
                0 <= i < j < r@.len() ==> #[trigger] r@[i].0@ != #[trigger] r@[j].0@,
    {
        let mut r: Vec<(String, String)> = Vec::new();
        let mut i: usize = 0;
        while i < self.entries.len()
            invariant
                i <= self.entries@.len(),
                r@.len() == i,
                forall|k: int| 0 <= k < i ==> #[trigger] r@[k].0@ == self.entries@[k].0@
                    && r@[k].1@ == self.entries@[k].1@,
            decreases self.entries@.len() - i,
        {
            let name = self.entries[i].0.clone();
            let pass = self.entries[i].1.clone();
            r.push((name, pass));
            i = i + 1;
        }
        proof {
            assert forall|u: Seq<char>| #[trigger] self.users().contains_key(u) implies exists|k: int|
                0 <= k < r@.len() && #[trigger] r@[k].0@ == u by {
                let k = choose|k: int| 0 <= k < self.entries@.len() && #[trigger] self.entries@[k].0@
                    == u;
                assert(r@[k].0@ == u);
            }
            assert forall|a: int, b: int| 0 <= a < b < r@.len() implies #[trigger] r@[a].0@
                != #[trigger] r@[b].0@ by {
                assert(self.entries@[a].0@ != self.entries@[b].0@);
            }
        }
        r
    }
}

} // verus!
