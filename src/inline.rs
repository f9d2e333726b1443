use vstd::prelude::*;
use vstd::slice::{slice_subrange, slice_to_vec};
use vstd::string::StringSliceAdditionalSpecFns;

verus! {

/// How many bytes an `InlineBytes` keeps without allocating: what a boxed slice and
/// its alignment take, less the tag and the length.
pub const MAX_INLINE_LEN: usize = 22;

/// A byte string that stores short contents inline and allocates only for longer ones.
pub struct InlineBytes(InlineBytesData);

enum InlineBytesData {
    Inline { len: u8, bytes: [u8; MAX_INLINE_LEN] },
    Boxed(Vec<u8>),
}

impl View for InlineBytes {
    type V = Seq<u8>;

    closed spec fn view(&self) -> Seq<u8> {
        match self.0 {
            InlineBytesData::Inline { len, bytes } => bytes@.take(len as int),
            InlineBytesData::Boxed(v) => v@,
        }
    }
}

impl InlineBytes {
    /// Inline contents never claim more than the inline buffer holds.
    pub closed spec fn wf(&self) -> bool {
        match self.0 {
            InlineBytesData::Inline { len, bytes } => len <= MAX_INLINE_LEN,
            InlineBytesData::Boxed(_) => true,
        }
    }

    /// Holds a copy of `slice`: inline when it fits, on the heap otherwise.
    pub fn new(slice: &[u8]) -> (r: InlineBytes)
        ensures
            r.wf(),
            r@ == slice@,
    {
        if slice.len() <= MAX_INLINE_LEN {
            let mut bytes = [0u8; MAX_INLINE_LEN];
            let mut i: usize = 0;
            while i < slice.len()
                invariant
                    i <= slice@.len(),
                    slice@.len() <= MAX_INLINE_LEN,
                    forall|k: int| 0 <= k < i ==> bytes@[k] == slice@[k],
                decreases slice@.len() - i,
            {
                bytes[i] = slice[i];
                i = i + 1;
            }
            let r = InlineBytes(InlineBytesData::Inline { len: slice.len() as u8, bytes });
            assert(r@ =~= slice@);
            r
        } else {
            InlineBytes(InlineBytesData::Boxed(slice_to_vec(slice)))
        }
    }

    /// One byte.
    pub fn from_byte(byte: u8) -> (r: InlineBytes)
        ensures
            r.wf(),
            r@ == seq![byte],
    {
        let one = [byte];
        let r = InlineBytes::new(one.as_slice());
        assert(one@ =~= seq![byte]);
        r
    }

    /// The contents.
    pub fn as_bytes(&self) -> (r: &[u8])
        requires
            self.wf(),
        ensures
            r@ == self@,
    {
        match &self.0 {
            InlineBytesData::Inline { len, bytes } => slice_subrange(
                bytes.as_slice(),
                0,
                *len as usize,
            ),
            InlineBytesData::Boxed(boxed) => boxed.as_slice(),
        }
    }

    pub fn len(&self) -> (r: usize)
        requires
            self.wf(),
        ensures
            r == self@.len(),
    {
        self.as_bytes().len()
    }
}

/// `InlineBytes` that hold the UTF-8 bytes of a string.
pub struct InlineStr(InlineBytes);

impl View for InlineStr {
    type V = Seq<u8>;

    closed spec fn view(&self) -> Seq<u8> {
        self.0@
    }
}

impl InlineStr {
    pub closed spec fn wf(&self) -> bool {
        self.0.wf()
    }

    /// Holds a copy of `text`.
    pub fn new(text: &str) -> (r: InlineStr)
        ensures
            r.wf(),
            r@ == text.spec_bytes(),
    {
        InlineStr(InlineBytes::new(text.as_bytes()))
    }

    /// The UTF-8 bytes of the string.
    pub fn as_bytes(&self) -> (r: &[u8])
        requires
            self.wf(),
        ensures
            r@ == self@,
    {
        self.0.as_bytes()
    }
}

} // verus!
