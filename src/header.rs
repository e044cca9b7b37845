//! Header fields as name/value pairs, with HTTP's case-insensitive names.
use vstd::prelude::*;

verus! {

/// What a header field is to the contracts: its name and its value bytes.
pub type HeaderView = (Seq<char>, Seq<u8>);

/// One header field. Names are compared without regard to ASCII case;
/// values are kept as raw bytes, since HTTP allows non-UTF-8 octets there.
pub struct Header {
    pub name: String,
    pub value: Vec<u8>,
}

impl View for Header {
    type V = HeaderView;

    open spec fn view(&self) -> HeaderView {
        (self.name@, self.value@)
    }
}

/// The view of a list of header fields.
pub open spec fn headers_view(v: Seq<Header>) -> Seq<HeaderView> {
    v.map_values(|h: Header| h@)
}

/// A character of a header name with ASCII upper case mapped to lower case.
pub open spec fn fold_char(c: char) -> int {
    let n = c as u32 as int;
    if 65 <= n && n <= 90 {
        n + 32
    } else {
        n
    }
}

/// A header name with ASCII case folded away.
pub open spec fn folded(name: Seq<char>) -> Seq<int> {
    name.map_values(|c: char| fold_char(c))
}

/// Two header names denote the same field.
pub open spec fn same_name(a: Seq<char>, b: Seq<char>) -> bool {
    folded(a) == folded(b)
}

fn fold_exec(c: char) -> (r: u32)
    ensures
        r as int == fold_char(c),
{
    let n = c as u32;
    if 65 <= n && n <= 90 {
        n + 32
    } else {
        n
    }
}

/// Whether two header names denote the same field (ASCII case-insensitive).
pub fn names_match(a: &str, b: &str) -> (r: bool)
    ensures
        r == same_name(a@, b@),
{
    let n = a.unicode_len();
    if n != b.unicode_len() {
        assert(folded(a@).len() != folded(b@).len());
        return false;
    }
    let mut i: usize = 0;
    while i < n
        invariant
            n == a@.len(),
            n == b@.len(),
            i <= n,
            forall|j: int| 0 <= j < i ==> fold_char(#[trigger] a@[j]) == fold_char(b@[j]),
        decreases n - i,
    {
        if fold_exec(a.get_char(i)) != fold_exec(b.get_char(i)) {
            assert(folded(a@)[i as int] != folded(b@)[i as int]);
            return false;
        }
        i += 1;
    }
    assert(folded(a@) =~= folded(b@));
    true
}

impl Header {
    /// A field with the given name and value.
    pub fn new(name: &str, value: &[u8]) -> (r: Header)
        ensures
            r@ == (name@, value@),
    {
        Header { name: name.to_owned(), value: vstd::slice::slice_to_vec(value) }
    }

    /// A copy of this field.
    pub fn duplicate(&self) -> (r: Header)
        ensures
            r@ == self@,
    {
        Header { name: self.name.clone(), value: vstd::slice::slice_to_vec(self.value.as_slice()) }
    }
}

} // verus!
