//! The extension allow-list of a scan.

use vstd::prelude::*;
use crate::text::bytes_equal;
use crate::text::utf8;

verus! {

/// The dot that separates a name from its extension.
pub const DOT: u8 = 46u8;

/// One byte with an ASCII capital turned into its small letter.
pub open spec fn lower_byte(byte: u8) -> u8 {
    if 65 <= byte <= 90 {
        (byte + 32) as u8
    } else {
        byte
    }
}

/// A byte string with its ASCII capitals turned into small letters.
pub open spec fn lowercase(bytes: Seq<u8>) -> Seq<u8> {
    Seq::new(bytes.len(), |i: int| lower_byte(bytes[i]))
}

/// Where the last dot of `name` stands, or -1 where it has none.
pub open spec fn last_dot(name: Seq<u8>) -> int
    decreases name.len(),
{
    if name.len() == 0 {
        -1
    } else if name.last() == DOT {
        name.len() - 1
    } else {
        last_dot(name.drop_last())
    }
}

/// The extension of a file name: what follows its last dot.
pub open spec fn extension_of(name: Seq<u8>) -> Option<Seq<u8>> {
    if last_dot(name) < 0 {
        None
    } else {
        Some(name.skip(last_dot(name) + 1))
    }
}

/// The last dot stands where it says, and no dot follows it.
pub proof fn lemma_last_dot(name: Seq<u8>)
    ensures
        -1 <= last_dot(name) < name.len(),
        last_dot(name) >= 0 ==> name[last_dot(name)] == DOT,
        forall|i: int| last_dot(name) < i < name.len() ==> name[i] != DOT,
    decreases name.len(),
{
    if name.len() > 0 && name.last() != DOT {
        let shorter = name.drop_last();
        lemma_last_dot(shorter);
        assert forall|i: int| last_dot(name) < i < name.len() implies name[i] != DOT by {
            if i < shorter.len() {
                assert(shorter[i] == name[i]);
            }
        }
        if last_dot(name) >= 0 {
            assert(shorter[last_dot(name)] == name[last_dot(name)]);
        }
    }
}

/// The extensions that a scan lets through, in small letters.
pub struct Extensions {
    allowed: Vec<Vec<u8>>,
}

impl Extensions {
    /// The allowed extensions, in the order they were added.
    pub closed spec fn allowed_extensions(&self) -> Seq<Seq<u8>> {
        Seq::new(self.allowed@.len(), |i: int| self.allowed@[i]@)
    }

    /// A file of this name passes: the list is empty, or the name has an
    /// extension that, in small letters, is on it.
    pub open spec fn allows(&self, file_name: Seq<u8>) -> bool {
        self.allowed_extensions().len() == 0 || match extension_of(file_name) {
            Some(extension) => self.allowed_extensions().contains(lowercase(extension)),
            None => false,
        }
    }

    /// An empty list, which lets every file through.
    pub fn new() -> (r: Self)
        ensures
            r.allowed_extensions() == Seq::<Seq<u8>>::empty(),
    {
        let r = Extensions { allowed: Vec::new() };
        assert(r.allowed_extensions() =~= Seq::<Seq<u8>>::empty());
        r
    }

    /// Adds an extension, written without its dot; capitals are folded.
    pub fn allow(&mut self, extension: &str)
        ensures
            final(self).allowed_extensions() == old(self).allowed_extensions().push(
                lowercase(utf8(extension@)),
            ),
    {
        let folded = lowercase_bytes(extension.as_bytes(), 0);
        self.allowed.push(folded);
        assert(utf8(extension@).skip(0) =~= utf8(extension@));
        assert(self.allowed_extensions() =~= old(self).allowed_extensions().push(
            lowercase(utf8(extension@)),
        ));
    }

    /// Tells whether a file of this name passes the list.
    pub fn check_if_entry_have_valid_extension(&self, file_name: &str) -> (r: bool)
        ensures
            r == self.allows(utf8(file_name@)),
    {
        if self.allowed.len() == 0 {
            return true;
        }
        let name = file_name.as_bytes();
        proof {
            lemma_last_dot(name@);
        }
        let mut at: usize = name.len();
        while at > 0 && name[at - 1] != DOT
            invariant
                at <= name.len(),
                forall|i: int| at <= i < name.len() ==> name@[i] != DOT,
                last_dot(name@) < at,
                last_dot(name@) >= 0 ==> name@[last_dot(name@)] == DOT,
            decreases at,
        {
            at -= 1;
        }
        if at == 0 {
            assert(last_dot(name@) < 0) by {
                if last_dot(name@) >= 0 {
                    assert(name@[last_dot(name@)] == DOT);
                }
            }
            return false;
        }
        assert(last_dot(name@) == at - 1) by {
            assert(name@[at - 1] == DOT);
        }
        let folded = lowercase_bytes(name, at);
        assert(extension_of(name@) == Some(name@.skip(at as int)));
        let mut i: usize = 0;
        while i < self.allowed.len()
            invariant
                i <= self.allowed.len(),
                name@ == utf8(file_name@),
                extension_of(name@) == Some(name@.skip(at as int)),
                folded@ == lowercase(name@.skip(at as int)),
                forall|j: int| 0 <= j < i ==> #[trigger] self.allowed_extensions()[j] != folded@,
            decreases self.allowed.len() - i,
        {
            if bytes_equal(self.allowed[i].as_slice(), folded.as_slice()) {
                assert(self.allowed_extensions()[i as int] == folded@);
                assert(self.allowed_extensions().contains(folded@));
                return true;
            }
            i += 1;
        }
        false
    }
}

/// The bytes of `bytes` from `from` on, with ASCII capitals folded.
fn lowercase_bytes(bytes: &[u8], from: usize) -> (r: Vec<u8>)
    requires
        from <= bytes@.len(),
    ensures
        r@ == lowercase(bytes@.skip(from as int)),
{
    let mut r: Vec<u8> = Vec::new();
    let mut i: usize = from;
    while i < bytes.len()
        invariant
            from <= i <= bytes.len(),
            r@.len() == i - from,
            forall|j: int| 0 <= j < r@.len() ==> r@[j] == lower_byte(bytes@[from + j]),
        decreases bytes.len() - i,
    {
        let byte = bytes[i];
        if 65 <= byte && byte <= 90 {
            r.push(byte + 32);
        } else {
            r.push(byte);
        }
        i += 1;
    }
    assert(r@ =~= lowercase(bytes@.skip(from as int)));
    r
}

} // verus!
