use vstd::prelude::*;
use vstd::string::StringSliceAdditionalSpecFns;

verus! {

/// Why a string could not be added to a guest string array.
#[derive(Clone, Copy, Debug, PartialEq, Eq, Structural)]
pub enum StringArrayError {
    /// The element holds a NUL byte, which the guest reads as its end.
    ContainsNul,
    /// The array would hold more elements than a 32-bit count allows.
    NumberElements,
    /// The element, with its terminator, exceeds a 32-bit size.
    ElementSize,
    /// All elements, each with its terminator, exceed a 32-bit size.
    CumulativeSize,
}

/// The bytes that an array occupies in guest memory: each element followed by
/// a NUL terminator.
pub open spec fn array_size(elems: Seq<Seq<u8>>) -> int
    decreases elems.len(),
{
    if elems.len() == 0 {
        0
    } else {
        array_size(elems.drop_last()) + elems.last().len() + 1
    }
}

/// The outcome of adding `elem` to an array that holds `elems`.
pub open spec fn push_outcome(elems: Seq<Seq<u8>>, elem: Seq<u8>) -> Result<(), StringArrayError> {
    if elem.contains(0u8) {
        Err(StringArrayError::ContainsNul)
    } else if elems.len() + 1 > u32::MAX {
        Err(StringArrayError::NumberElements)
    } else if elem.len() + 1 > u32::MAX {
        Err(StringArrayError::ElementSize)
    } else if array_size(elems) + elem.len() + 1 > u32::MAX {
        Err(StringArrayError::CumulativeSize)
    } else {
        Ok(())
    }
}

/// The outcome of adding each of `items` in turn to an array that holds
/// `elems`: the array afterwards, or the first refusal.
pub open spec fn push_all(elems: Seq<Seq<u8>>, items: Seq<Seq<u8>>) -> Result<Seq<Seq<u8>>, StringArrayError>
    decreases items.len(),
{
    if items.len() == 0 {
        Ok(elems)
    } else {
        match push_all(elems, items.drop_last()) {
            Ok(before) => match push_outcome(before, items.last()) {
                Ok(_) => Ok(before.push(items.last())),
                Err(e) => Err(e),
            },
            Err(e) => Err(e),
        }
    }
}

/// An ordered sequence of strings laid out for the guest, each one a sequence
/// of bytes without NUL, whose elements and total size fit 32-bit counts.
pub struct StringArray {
    elems: Vec<Vec<u8>>,
    size: usize,
}

impl View for StringArray {
    type V = Seq<Seq<u8>>;

    closed spec fn view(&self) -> Seq<Seq<u8>> {
        self.elems@.map_values(|e: Vec<u8>| e@)
    }
}

impl StringArray {
    pub closed spec fn wf(&self) -> bool {
        &&& self.size == array_size(self@)
        &&& self.size <= u32::MAX
        &&& self@.len() <= u32::MAX
        &&& forall|i: int| 0 <= i < self@.len() ==> !(#[trigger] self@[i]).contains(0u8)
    }

    pub fn new() -> (r: StringArray)
        ensures
            r.wf(),
            r@ == Seq::<Seq<u8>>::empty(),
    {
        let r = StringArray { elems: Vec::new(), size: 0 };
        assert(r@ =~= Seq::<Seq<u8>>::empty());
        r
    }

    /// The bytes of all elements with their terminators.
    pub fn cumulative_size(&self) -> (r: usize)
        requires
            self.wf(),
        ensures
            r == array_size(self@),
    {
        self.size
    }

    pub fn number_elements(&self) -> (r: usize)
        ensures
            r == self@.len(),
    {
        self.elems.len()
    }

    /// The element at `i`.
    pub fn get(&self, i: usize) -> (r: &Vec<u8>)
        requires
            i < self@.len(),
        ensures
            r@ == self@[i as int],
    {
        &self.elems[i]
    }

    /// Appends `elem`, or leaves the array as it was and says why not.
    pub fn push(&mut self, elem: Vec<u8>) -> (r: Result<(), StringArrayError>)
        requires
            old(self).wf(),
        ensures
            final(self).wf(),
            r == push_outcome(old(self)@, elem@),
            r is Ok ==> final(self)@ == old(self)@.push(elem@),
            r is Err ==> final(self)@ == old(self)@,
    {
        if has_nul(&elem) {
            return Err(StringArrayError::ContainsNul);
        }
        assert(!elem@.contains(0u8));
        if self.elems.len() >= u32::MAX as usize {
            return Err(StringArrayError::NumberElements);
        }
        if elem.len() >= u32::MAX as usize {
            return Err(StringArrayError::ElementSize);
        }
        if elem.len() >= u32::MAX as usize - self.size {
            return Err(StringArrayError::CumulativeSize);
        }
        let ghost before = self@;
        self.size = self.size + elem.len() + 1;
        self.elems.push(elem);
        proof {
            assert(self@ =~= before.push(elem@));
            assert(self@.drop_last() =~= before);
            assert forall|j: int| 0 <= j < self@.len() implies !(#[trigger] self@[j]).contains(0u8) by {
                if j < before.len() {
                    assert(self@[j] == before[j]);
                }
            }
        }
        Ok(())
    }
}

/// Whether `b` holds a NUL byte.
fn has_nul(b: &Vec<u8>) -> (r: bool)
    ensures
        r == b@.contains(0u8),
{
    let mut i: usize = 0;
    while i < b.len()
        invariant
            i <= b@.len(),
            forall|j: int| 0 <= j < i ==> b@[j] != 0u8,
        decreases b@.len() - i,
    {
        if b[i] == 0u8 {
            assert(b@[i as int] == 0u8);
            return true;
        }
        i += 1;
    }
    false
}

/// The bytes of `s`.
pub fn bytes_of(s: &str) -> (r: Vec<u8>)
    ensures
        r@ == s.spec_bytes(),
{
    let b = s.as_bytes();
    let mut out: Vec<u8> = Vec::new();
    let mut i: usize = 0;
    while i < b.len()
        invariant
            i <= b@.len(),
            out@ == b@.subrange(0, i as int),
        decreases b@.len() - i,
    {
        out.push(b[i]);
        i += 1;
        assert(out@ =~= b@.subrange(0, i as int));
    }
    assert(b@.subrange(0, b@.len() as int) =~= b@);
    out
}

/// The guest's form of an environment variable: `key=value`.
pub open spec fn env_entry(key: Seq<u8>, value: Seq<u8>) -> Seq<u8> {
    key + seq![61u8] + value
}

/// The bytes `key=value`.
pub fn env_bytes(key: &str, value: &str) -> (r: Vec<u8>)
    ensures
        r@ == env_entry(key.spec_bytes(), value.spec_bytes()),
{
    let mut out = bytes_of(key);
    let v = bytes_of(value);
    let ghost k = out@;
    out.push(61u8);
    let mut i: usize = 0;
    while i < v.len()
        invariant
            i <= v@.len(),
            k == key.spec_bytes(),
            v@ == value.spec_bytes(),
            out@ == k + seq![61u8] + v@.subrange(0, i as int),
        decreases v@.len() - i,
    {
        out.push(v[i]);
        i += 1;
        assert(out@ =~= k + seq![61u8] + v@.subrange(0, i as int));
    }
    assert(v@.subrange(0, v@.len() as int) =~= v@);
    out
}

} // verus!
