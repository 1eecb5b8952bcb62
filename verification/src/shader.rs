//! Compiled shader modules and the sources that shaders include.
use vstd::prelude::*;

verus! {

/// Byte `b` of a word, counted from the least significant one.
pub open spec fn word_byte(word: u32, b: int) -> u8 {
    if b == 0 {
        (word & 0xff) as u8
    } else if b == 1 {
        ((word >> 8) & 0xff) as u8
    } else if b == 2 {
        ((word >> 16) & 0xff) as u8
    } else {
        ((word >> 24) & 0xff) as u8
    }
}

/// The bytes of a sequence of words, each word least significant byte first.
pub open spec fn le_bytes(words: Seq<u32>) -> Seq<u8> {
    Seq::new(4 * words.len(), |n: int| word_byte(words[n / 4], n % 4))
}

/// A compiled shader module: its name, its words, and the same words as
/// bytes.
#[derive(Debug, Clone)]
pub struct SpirvShader {
    pub name: String,
    pub binary: Vec<u32>,
    pub binary_u8: Vec<u8>,
}

/// One shader source file: its path and its text.
#[derive(Debug, Clone)]
pub struct ShaderSource {
    pub path: String,
    pub content: String,
}

/// The sources that a shader may include, by path.
pub struct ShaderIncludeStructure {
    pub shader_sources: Vec<ShaderSource>,
}

/// Index of the last source with the given path, or -1 if there is none.
pub open spec fn last_with_path(sources: Seq<ShaderSource>, path: Seq<char>) -> int
    decreases sources.len(),
{
    if sources.len() == 0 {
        -1
    } else if sources.last().path@ == path {
        sources.len() - 1
    } else {
        last_with_path(sources.drop_last(), path)
    }
}

/// The four bytes of a word, least significant first.
fn word_bytes(word: u32) -> (r: [u8; 4])
    ensures
        forall|b: int| 0 <= b < 4 ==> r@[b] == word_byte(word, b),
{
    assert(word & 0xff <= 0xff && (word >> 8) & 0xff <= 0xff && (word >> 16) & 0xff <= 0xff && (word
        >> 24) & 0xff <= 0xff) by (bit_vector);
    [
        (word & 0xff) as u8,
        ((word >> 8) & 0xff) as u8,
        ((word >> 16) & 0xff) as u8,
        ((word >> 24) & 0xff) as u8,
    ]
}

impl SpirvShader {
    /// A module from its name and its words; the bytes are laid out word by
    /// word, each least significant byte first.
    pub fn new(name: String, binary: Vec<u32>) -> (r: Self)
        ensures
            r.name == name,
            r.binary == binary,
            r.binary_u8@ == le_bytes(binary@),
    {
        let mut binary_u8: Vec<u8> = Vec::new();
        let mut w: usize = 0;
        while w < binary.len()
            invariant
                w <= binary@.len(),
                binary_u8@.len() == 4 * w,
                forall|n: int|
                    0 <= n < 4 * w ==> #[trigger] binary_u8@[n] == word_byte(binary@[n / 4], n % 4),
            decreases binary@.len() - w,
        {
            let bytes = word_bytes(binary[w]);
            binary_u8.push(bytes[0]);
            binary_u8.push(bytes[1]);
            binary_u8.push(bytes[2]);
            binary_u8.push(bytes[3]);
            w += 1;
        }
        assert(binary_u8@ =~= le_bytes(binary@));
        SpirvShader { name, binary, binary_u8 }
    }

    /// The words of the module.
    pub fn as_binary(&self) -> (r: &[u32])
        ensures
            r@ == self.binary@,
    {
        self.binary.as_slice()
    }

    /// The bytes of the module.
    pub fn as_binary_u8(&self) -> (r: &[u8])
        ensures
            r@ == self.binary_u8@,
    {
        self.binary_u8.as_slice()
    }
}

impl ShaderIncludeStructure {
    /// The include structure over the given sources. Where two sources share
    /// a path, the later one stands for it.
    pub fn new(shader_sources: Vec<ShaderSource>) -> (r: Self)
        ensures
            r.shader_sources == shader_sources,
    {
        ShaderIncludeStructure { shader_sources }
    }

    /// The text of the source at `path`, if there is one.
    pub fn get_shader_source(&self, path: &String) -> (r: Option<String>)
        ensures
            last_with_path(self.shader_sources@, path@) < 0 ==> r.is_none(),
            last_with_path(self.shader_sources@, path@) >= 0 ==> r.is_some() && r.unwrap()@
                == self.shader_sources@[last_with_path(self.shader_sources@, path@)].content@,
    {
        let mut n: usize = self.shader_sources.len();
        assert(self.shader_sources@.take(n as int) =~= self.shader_sources@);
        while n > 0
            invariant
                n <= self.shader_sources@.len(),
                last_with_path(self.shader_sources@, path@) == last_with_path(
                    self.shader_sources@.take(n as int),
                    path@,
                ),
            decreases n,
        {
            let ghost prefix = self.shader_sources@.take(n as int);
            assert(prefix.last() == self.shader_sources@[n - 1]);
            assert(prefix.drop_last() =~= self.shader_sources@.take(n - 1));
            if self.shader_sources[n - 1].path == *path {
                return Some(self.shader_sources[n - 1].content.clone());
            }
            n -= 1;
        }
        assert(self.shader_sources@.take(0).len() == 0);
        None
    }
}

} // verus!
