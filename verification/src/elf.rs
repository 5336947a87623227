//! Parsing a standard executable/linkable (ELF) image out of a byte buffer.
//!
//! The parser validates the identification header, walks the section-header
//! table to the first symbol-table section and its linked string-table
//! section, and exposes the symbol entries together with their names. It
//! supports both word widths and both byte orders of the format. Every offset
//! is bounds-checked against the buffer before use; a malformed or truncated
//! buffer yields a parse failure, never an out-of-bounds read.
//!
//! The spec functions in this module define, byte for byte, what a buffer
//! parses to; [`BinaryImage::parse`] and [`BinaryImage::find_symbol`] are
//! proved against them.

use crate::bytes::{lemma_word_bound, pow256, read_word, word_at};
use crate::ResolveError;
use vstd::arithmetic::div_mod::{lemma_fundamental_div_mod, lemma_mod_bound};
use vstd::arithmetic::mul::lemma_mul_inequality;
use vstd::prelude::*;

verus! {

/// The word width of an image: the format's class byte.
#[derive(Clone, Copy, Debug, PartialEq, Eq, Structural)]
pub enum ImageClass {
    Bits32,
    Bits64,
}

/// One symbol-table entry: where its name starts in the string table, the
/// symbol's recorded value offset within the image, and the index of the
/// section it belongs to.
#[derive(Clone, Copy, Debug, PartialEq, Eq, Structural)]
pub struct SymbolEntry {
    pub name_offset: u32,
    pub value_offset: u64,
    pub section_index: u16,
}

/// The structured view a successful parse yields: the ordered symbol table
/// and the string table its name offsets point into.
#[verifier::ext_equal]
pub struct ImageModel {
    pub symbols: Seq<SymbolEntry>,
    pub strtab: Seq<u8>,
}

/// Magic, class byte and data byte of the identification prefix. `true`
/// stands for little-endian.
pub open spec fn spec_ident(b: Seq<u8>) -> Option<(ImageClass, bool)> {
    if b.len() >= 6 && b[0] == 0x7f && b[1] == 0x45 && b[2] == 0x4c && b[3] == 0x46 && (b[4] == 1
        || b[4] == 2) && (b[5] == 1 || b[5] == 2) {
        Some(
            (
                if b[4] == 1 {
                    ImageClass::Bits32
                } else {
                    ImageClass::Bits64
                },
                b[5] == 1,
            ),
        )
    } else {
        None
    }
}

/// Length of the image header for each class.
pub open spec fn header_len(c: ImageClass) -> int {
    match c {
        ImageClass::Bits32 => 52,
        ImageClass::Bits64 => 64,
    }
}

/// Length of one section header for each class.
pub open spec fn section_header_len(c: ImageClass) -> int {
    match c {
        ImageClass::Bits32 => 40,
        ImageClass::Bits64 => 64,
    }
}

/// Length of one symbol-table entry for each class.
pub open spec fn symbol_len(c: ImageClass) -> int {
    match c {
        ImageClass::Bits32 => 16,
        ImageClass::Bits64 => 24,
    }
}

/// The section-header table's file offset, from the image header.
pub open spec fn spec_shoff(b: Seq<u8>, c: ImageClass, little: bool) -> int {
    match c {
        ImageClass::Bits32 => word_at(b, 0x20, 4, little),
        ImageClass::Bits64 => word_at(b, 0x28, 8, little),
    }
}

/// The recorded size of one section header, from the image header.
pub open spec fn spec_shentsize(b: Seq<u8>, c: ImageClass, little: bool) -> int {
    match c {
        ImageClass::Bits32 => word_at(b, 0x2e, 2, little),
        ImageClass::Bits64 => word_at(b, 0x3a, 2, little),
    }
}

/// The number of section headers, from the image header.
pub open spec fn spec_shnum(b: Seq<u8>, c: ImageClass, little: bool) -> int {
    match c {
        ImageClass::Bits32 => word_at(b, 0x30, 2, little),
        ImageClass::Bits64 => word_at(b, 0x3c, 2, little),
    }
}

/// File offset of section header `i`.
pub open spec fn spec_section_off(b: Seq<u8>, c: ImageClass, little: bool, i: int) -> int {
    spec_shoff(b, c, little) + i * section_header_len(c)
}

/// The type field of section header `i`.
pub open spec fn spec_sh_type(b: Seq<u8>, c: ImageClass, little: bool, i: int) -> int {
    word_at(b, spec_section_off(b, c, little, i) + 4, 4, little)
}

/// The file offset field of section header `i`.
pub open spec fn spec_sh_offset(b: Seq<u8>, c: ImageClass, little: bool, i: int) -> int {
    match c {
        ImageClass::Bits32 => word_at(b, spec_section_off(b, c, little, i) + 16, 4, little),
        ImageClass::Bits64 => word_at(b, spec_section_off(b, c, little, i) + 24, 8, little),
    }
}

/// The size field of section header `i`.
pub open spec fn spec_sh_size(b: Seq<u8>, c: ImageClass, little: bool, i: int) -> int {
    match c {
        ImageClass::Bits32 => word_at(b, spec_section_off(b, c, little, i) + 20, 4, little),
        ImageClass::Bits64 => word_at(b, spec_section_off(b, c, little, i) + 32, 8, little),
    }
}

/// The link field of section header `i`: for a symbol-table section, the
/// index of its string-table section.
pub open spec fn spec_sh_link(b: Seq<u8>, c: ImageClass, little: bool, i: int) -> int {
    match c {
        ImageClass::Bits32 => word_at(b, spec_section_off(b, c, little, i) + 24, 4, little),
        ImageClass::Bits64 => word_at(b, spec_section_off(b, c, little, i) + 40, 4, little),
    }
}

/// The section type that marks a symbol-table section.
pub open spec fn symtab_section_type() -> int {
    2
}

/// Index of the first symbol-table section at or after `i`, or -1 if none.
pub open spec fn first_symtab_at(b: Seq<u8>, c: ImageClass, little: bool, i: int, shnum: int) -> int
    decreases shnum - i,
{
    if i < 0 || i >= shnum {
        -1
    } else if spec_sh_type(b, c, little, i) == symtab_section_type() {
        i
    } else {
        first_symtab_at(b, c, little, i + 1, shnum)
    }
}

/// The symbol entry recorded at file offset `off`.
pub open spec fn spec_symbol(b: Seq<u8>, c: ImageClass, little: bool, off: int) -> SymbolEntry {
    match c {
        ImageClass::Bits32 => SymbolEntry {
            name_offset: word_at(b, off, 4, little) as u32,
            value_offset: word_at(b, off + 4, 4, little) as u64,
            section_index: word_at(b, off + 14, 2, little) as u16,
        },
        ImageClass::Bits64 => SymbolEntry {
            name_offset: word_at(b, off, 4, little) as u32,
            value_offset: word_at(b, off + 8, 8, little) as u64,
            section_index: word_at(b, off + 6, 2, little) as u16,
        },
    }
}

/// What a byte buffer parses to: `None` on a malformed or truncated buffer.
///
/// An image without section headers, or without a symbol-table section, is
/// well-formed and has an empty symbol table. One whose section, symbol or
/// string tables reach past the end of the buffer, whose recorded section
/// header size is not the class's, or whose symbol-table section links to a
/// section index out of range, is malformed.
pub open spec fn spec_parse(b: Seq<u8>) -> Option<ImageModel> {
    match spec_ident(b) {
        None => None,
        Some((c, little)) => {
            if b.len() < header_len(c) {
                None
            } else {
                let shoff = spec_shoff(b, c, little);
                let shnum = spec_shnum(b, c, little);
                if shnum == 0 {
                    Some(ImageModel { symbols: Seq::empty(), strtab: Seq::empty() })
                } else if spec_shentsize(b, c, little) != section_header_len(c) || shoff + shnum
                    * section_header_len(c) > b.len() {
                    None
                } else {
                    let si = first_symtab_at(b, c, little, 0, shnum);
                    if si < 0 {
                        Some(ImageModel { symbols: Seq::empty(), strtab: Seq::empty() })
                    } else {
                        let sym_off = spec_sh_offset(b, c, little, si);
                        let sym_size = spec_sh_size(b, c, little, si);
                        let link = spec_sh_link(b, c, little, si);
                        if sym_off + sym_size > b.len() || link >= shnum {
                            None
                        } else {
                            let str_off = spec_sh_offset(b, c, little, link);
                            let str_size = spec_sh_size(b, c, little, link);
                            if str_off + str_size > b.len() {
                                None
                            } else {
                                let count = sym_size / symbol_len(c);
                                Some(
                                    ImageModel {
                                        symbols: Seq::new(
                                            count as nat,
                                            |j: int|
                                                spec_symbol(
                                                    b,
                                                    c,
                                                    little,
                                                    sym_off + j * symbol_len(c),
                                                ),
                                        ),
                                        strtab: b.subrange(str_off, str_off + str_size),
                                    },
                                )
                            }
                        }
                    }
                }
            }
        },
    }
}

/// Position of the first NUL byte at or after `off` in `s`, or -1 if none.
pub open spec fn nul_pos(s: Seq<u8>, off: int) -> int
    decreases s.len() - off,
{
    if off < 0 || off >= s.len() {
        -1
    } else if s[off] == 0 {
        off
    } else {
        nul_pos(s, off + 1)
    }
}

/// The name stored at `off` in string table `s`: the bytes up to but not
/// including the first NUL. `None` if `off` is out of the table or no NUL
/// follows.
pub open spec fn name_at(s: Seq<u8>, off: int) -> Option<Seq<u8>> {
    if 0 <= off && nul_pos(s, off) >= 0 {
        Some(s.subrange(off, nul_pos(s, off)))
    } else {
        None
    }
}

/// Index of the first symbol at or after `i` whose resolved name is exactly
/// `name`, or -1 if none.
pub open spec fn first_symbol_named(m: ImageModel, name: Seq<u8>, i: int) -> int
    decreases m.symbols.len() - i,
{
    if i < 0 || i >= m.symbols.len() {
        -1
    } else if name_at(m.strtab, m.symbols[i].name_offset as int) == Some(name) {
        i
    } else {
        first_symbol_named(m, name, i + 1)
    }
}

/// The first symbol of the image whose name is exactly `name`.
pub open spec fn spec_find(m: ImageModel, name: Seq<u8>) -> Option<SymbolEntry> {
    let i = first_symbol_named(m, name, 0);
    if i >= 0 {
        Some(m.symbols[i])
    } else {
        None
    }
}

proof fn lemma_first_symbol_named_props(m: ImageModel, name: Seq<u8>, i: int)
    requires
        0 <= i,
    ensures
        first_symbol_named(m, name, i) == -1 || first_symbol_named(m, name, i) >= i,
        first_symbol_named(m, name, i) == -1 ==> forall|j: int|
            i <= j < m.symbols.len() ==> name_at(m.strtab, m.symbols[j].name_offset as int)
                != Some(name),
        first_symbol_named(m, name, i) >= 0 ==> {
            let fi = first_symbol_named(m, name, i);
            &&& i <= fi < m.symbols.len()
            &&& name_at(m.strtab, m.symbols[fi].name_offset as int) == Some(name)
            &&& forall|j: int|
                i <= j < fi ==> name_at(m.strtab, m.symbols[j].name_offset as int) != Some(name)
        },
    decreases m.symbols.len() - i,
{
    if i < m.symbols.len() && name_at(m.strtab, m.symbols[i].name_offset as int) != Some(name) {
        lemma_first_symbol_named_props(m, name, i + 1);
    }
}

/// What the symbol search yields, spelled out: a found entry is in the
/// table, its resolved name is exactly the one searched for, and the names
/// of all entries before it differ; an absent result means no entry of the
/// whole table carries the name.
pub proof fn lemma_symbol_search(m: ImageModel, name: Seq<u8>)
    ensures
        spec_find(m, name) is None ==> forall|j: int|
            0 <= j < m.symbols.len() ==> name_at(m.strtab, m.symbols[j].name_offset as int)
                != Some(name),
        spec_find(m, name) matches Some(e) ==> ({
            let fi = first_symbol_named(m, name, 0);
            &&& 0 <= fi < m.symbols.len()
            &&& m.symbols[fi] == e
            &&& name_at(m.strtab, e.name_offset as int) == Some(name)
            &&& forall|j: int|
                0 <= j < fi ==> name_at(m.strtab, m.symbols[j].name_offset as int) != Some(name)
        }),
{
    lemma_first_symbol_named_props(m, name, 0);
    let fi = first_symbol_named(m, name, 0);
    if fi >= 0 {
        assert(spec_find(m, name) == Some(m.symbols[fi]));
    }
}

proof fn lemma_nul_pos_props(s: Seq<u8>, off: int)
    requires
        0 <= off,
        nul_pos(s, off) >= 0,
    ensures
        off <= nul_pos(s, off) < s.len(),
        s[nul_pos(s, off)] == 0,
        forall|k: int| off <= k < nul_pos(s, off) ==> s[k] != 0,
    decreases s.len() - off,
{
    if off < s.len() && s[off] != 0 {
        lemma_nul_pos_props(s, off + 1);
    }
}

proof fn lemma_nul_pos_found(s: Seq<u8>, off: int, p: int)
    requires
        0 <= off <= p < s.len(),
        s[p] == 0,
        forall|k: int| off <= k < p ==> s[k] != 0,
    ensures
        nul_pos(s, off) == p,
    decreases p - off,
{
    if off < p {
        lemma_nul_pos_found(s, off + 1, p);
    }
}

/// A parsed image: the owned byte buffer together with the extracted symbol
/// table and the window of the buffer that holds the string table.
pub struct BinaryImage {
    bytes: Vec<u8>,
    symbols: Vec<SymbolEntry>,
    strtab_off: usize,
    strtab_len: usize,
}

impl BinaryImage {
    /// The string table lies inside the owned buffer.
    pub closed spec fn wf(self) -> bool {
        self.strtab_off + self.strtab_len <= self.bytes@.len()
    }

    /// The underlying byte buffer this image was parsed from.
    pub closed spec fn buffer(self) -> Seq<u8> {
        self.bytes@
    }

    /// The structured view of this image.
    pub closed spec fn model(self) -> ImageModel {
        ImageModel {
            symbols: self.symbols@,
            strtab: self.bytes@.subrange(
                self.strtab_off as int,
                self.strtab_off + self.strtab_len,
            ),
        }
    }

    /// How many entries the symbol table holds.
    pub fn symbol_count(&self) -> (r: usize)
        ensures
            r == self.model().symbols.len(),
    {
        self.symbols.len()
    }

    /// Whether the name stored at `name_offset` in the string table is
    /// exactly `name`.
    fn name_matches(&self, name_offset: u32, name: &Vec<u8>) -> (r: bool)
        requires
            self.wf(),
        ensures
            r == (name_at(self.model().strtab, name_offset as int) == Some(name@)),
    {
        let ghost s = self.model().strtab;
        let off = name_offset as usize;
        let tlen = name.len();
        if off >= self.strtab_len || tlen >= self.strtab_len - off {
            // The name plus its NUL terminator cannot fit in the table, so
            // either no NUL follows `off` inside the table or the stored name
            // is shorter than `name`.
            proof {
                if nul_pos(s, off as int) >= 0 {
                    lemma_nul_pos_props(s, off as int);
                    assert(s.subrange(off as int, nul_pos(s, off as int)).len() < tlen);
                }
            }
            return false;
        }
        let blen = self.bytes.len();
        let mut j: usize = 0;
        while j < tlen
            invariant
                self.wf(),
                s == self.model().strtab,
                off == name_offset as usize,
                off + tlen < self.strtab_len,
                s.len() == self.strtab_len,
                blen == self.bytes@.len(),
                tlen == name@.len(),
                j <= tlen,
                forall|k: int| off <= k < off + j ==> s[k] == name@[k - off] && s[k] != 0,
            decreases tlen - j,
        {
            let c = self.bytes[self.strtab_off + off + j];
            proof {
                assert(s[off + j] == self.bytes@[self.strtab_off + off + j]);
            }
            if c == 0 {
                // The stored name ends before `name` does.
                proof {
                    lemma_nul_pos_found(s, off as int, off + j);
                    assert(s.subrange(off as int, off + j).len() < tlen);
                }
                return false;
            }
            if c != name[j] {
                // A byte of the stored name differs from `name`.
                proof {
                    if nul_pos(s, off as int) >= 0 {
                        lemma_nul_pos_props(s, off as int);
                        let p = nul_pos(s, off as int);
                        if s.subrange(off as int, p) == name@ {
                            assert(p - off == tlen);
                            assert(s.subrange(off as int, p)[j as int] == s[off + j]);
                        }
                    }
                }
                return false;
            }
            j += 1;
        }
        let c = self.bytes[self.strtab_off + off + tlen];
        proof {
            assert(s[off + tlen] == self.bytes@[self.strtab_off + off + tlen]);
        }
        if c == 0 {
            proof {
                lemma_nul_pos_found(s, off as int, off + tlen);
                assert(s.subrange(off as int, off + tlen) =~= name@);
            }
            true
        } else {
            // The stored name runs past `name`'s length.
            proof {
                if nul_pos(s, off as int) >= 0 {
                    lemma_nul_pos_props(s, off as int);
                    let p = nul_pos(s, off as int);
                    if p <= off + tlen {
                        assert(s[p] == 0);
                    }
                    assert(s.subrange(off as int, p).len() > tlen);
                }
            }
            false
        }
    }

    /// Validates `bytes` as an executable image and extracts its symbol and
    /// string tables.
    ///
    /// Succeeds exactly on the buffers [`spec_parse`] accepts, and the parsed
    /// view is exactly what [`spec_parse`] yields. Every offset that is read
    /// has been checked against the buffer's length first.
    #[verifier::loop_isolation(false)]
    #[verifier::rlimit(60)]
    pub fn parse(bytes: Vec<u8>) -> (r: Result<BinaryImage, ResolveError>)
        ensures
            match r {
                Ok(img) => {
                    &&& img.wf()
                    &&& img.buffer() == bytes@
                    &&& spec_parse(bytes@) == Some(img.model())
                },
                Err(e) => e == ResolveError::MalformedImage && spec_parse(bytes@) is None,
            },
    {
        let ghost b = bytes@;
        let len = bytes.len();
        // Identification prefix: magic, class byte, data byte.
        if len < 6 || bytes[0] != 0x7f || bytes[1] != 0x45 || bytes[2] != 0x4c || bytes[3] != 0x46
        {
            return Err(ResolveError::MalformedImage);
        }
        let class_byte = bytes[4];
        let data_byte = bytes[5];
        if (class_byte != 1 && class_byte != 2) || (data_byte != 1 && data_byte != 2) {
            return Err(ResolveError::MalformedImage);
        }
        let class32 = class_byte == 1;
        let little = data_byte == 1;
        let ghost c = if class32 {
            ImageClass::Bits32
        } else {
            ImageClass::Bits64
        };
        proof {
            assert(spec_ident(b) == Some((c, little)));
        }
        let hlen: usize = if class32 {
            52
        } else {
            64
        };
        if len < hlen {
            return Err(ResolveError::MalformedImage);
        }
        // Header fields: section-table offset, entry size, entry count.
        let shoff: u64 = if class32 {
            read_word(&bytes, 0x20, 4, little)
        } else {
            read_word(&bytes, 0x28, 8, little)
        };
        let shentsize: u64 = if class32 {
            read_word(&bytes, 0x2e, 2, little)
        } else {
            read_word(&bytes, 0x3a, 2, little)
        };
        let shnum: u64 = if class32 {
            read_word(&bytes, 0x30, 2, little)
        } else {
            read_word(&bytes, 0x3c, 2, little)
        };
        proof {
            assert(shoff == spec_shoff(b, c, little));
            assert(shentsize == spec_shentsize(b, c, little));
            assert(shnum == spec_shnum(b, c, little));
        }
        if shnum == 0 {
            let img = BinaryImage { bytes, symbols: Vec::new(), strtab_off: 0, strtab_len: 0 };
            proof {
                assert(img.model() =~= (ImageModel {
                    symbols: Seq::empty(),
                    strtab: Seq::empty(),
                }));
            }
            return Ok(img);
        }
        let shl: u64 = if class32 {
            40
        } else {
            64
        };
        let len64 = len as u64;
        proof {
            lemma_word_bound(b, if class32 { 0x30 } else { 0x3c }, 2, little);
            reveal_with_fuel(pow256, 3);
            assert(shnum * shl <= 65535 * 64) by (nonlinear_arith)
                requires
                    shnum <= 65535,
                    0 <= shl <= 64,
            ;
            assert(shnum * shl >= 0) by (nonlinear_arith)
                requires
                    shnum >= 0,
                    shl >= 0,
            ;
        }
        let need = shnum * shl;
        if shentsize != shl || need > len64 || shoff > len64 - need {
            return Err(ResolveError::MalformedImage);
        }
        // Scan the section headers for the first symbol-table section.
        let shoff_us = shoff as usize;
        let shnum_us = shnum as usize;
        let shl_us = shl as usize;
        let mut si: usize = 0;
        let mut found = false;
        let mut i: usize = 0;
        while i < shnum_us && !found
            invariant
                i <= shnum_us,
                found ==> i < shnum_us && first_symtab_at(b, c, little, 0, shnum as int) == i as int,
                !found ==> first_symtab_at(b, c, little, 0, shnum as int) == first_symtab_at(
                    b,
                    c,
                    little,
                    i as int,
                    shnum as int,
                ),
                found ==> si == i,
            decreases shnum_us - i + (if found { 0int } else { 1int }),
        {
            proof {
                lemma_mul_inequality(i + 1, shnum as int, shl as int);
                assert((i + 1) * (shl as int) == i * (shl as int) + shl) by (nonlinear_arith);
            }
            let sec = shoff_us + i * shl_us;
            let st = read_word(&bytes, sec + 4, 4, little);
            proof {
                assert(sec as int == spec_section_off(b, c, little, i as int));
                assert(st == spec_sh_type(b, c, little, i as int));
            }
            if st == 2 {
                found = true;
                si = i;
            } else {
                i += 1;
            }
        }
        if !found {
            let img = BinaryImage { bytes, symbols: Vec::new(), strtab_off: 0, strtab_len: 0 };
            proof {
                assert(first_symtab_at(b, c, little, 0, shnum as int) == -1);
                assert(img.model() =~= (ImageModel {
                    symbols: Seq::empty(),
                    strtab: Seq::empty(),
                }));
            }
            return Ok(img);
        }
        // The symbol-table section's file range and linked string table.
        proof {
            lemma_mul_inequality(si + 1, shnum as int, shl as int);
            assert((si + 1) * (shl as int) == si * (shl as int) + shl) by (nonlinear_arith);
        }
        let sec = shoff_us + si * shl_us;
        let sym_off: u64;
        let sym_size: u64;
        let link: u64;
        if class32 {
            sym_off = read_word(&bytes, sec + 16, 4, little);
            sym_size = read_word(&bytes, sec + 20, 4, little);
            link = read_word(&bytes, sec + 24, 4, little);
        } else {
            sym_off = read_word(&bytes, sec + 24, 8, little);
            sym_size = read_word(&bytes, sec + 32, 8, little);
            link = read_word(&bytes, sec + 40, 4, little);
        }
        proof {
            assert(sec as int == spec_section_off(b, c, little, si as int));
            assert(sym_off == spec_sh_offset(b, c, little, si as int));
            assert(sym_size == spec_sh_size(b, c, little, si as int));
            assert(link == spec_sh_link(b, c, little, si as int));
        }
        if sym_size > len64 || sym_off > len64 - sym_size || link >= shnum {
            return Err(ResolveError::MalformedImage);
        }
        proof {
            lemma_mul_inequality(link as int, shnum as int, shl as int);
            lemma_mul_inequality(link + 1, shnum as int, shl as int);
            assert((link + 1) * (shl as int) == link * (shl as int) + shl) by (nonlinear_arith);
        }
        let str_sec = shoff_us + (link as usize) * shl_us;
        let str_off: u64;
        let str_size: u64;
        if class32 {
            str_off = read_word(&bytes, str_sec + 16, 4, little);
            str_size = read_word(&bytes, str_sec + 20, 4, little);
        } else {
            str_off = read_word(&bytes, str_sec + 24, 8, little);
            str_size = read_word(&bytes, str_sec + 32, 8, little);
        }
        proof {
            assert(str_sec as int == spec_section_off(b, c, little, link as int));
            assert(str_off == spec_sh_offset(b, c, little, link as int));
            assert(str_size == spec_sh_size(b, c, little, link as int));
        }
        if str_size > len64 || str_off > len64 - str_size {
            return Err(ResolveError::MalformedImage);
        }
        // Extract the symbol entries.
        let syl: u64 = if class32 {
            16
        } else {
            24
        };
        let count = sym_size / syl;
        proof {
            lemma_fundamental_div_mod(sym_size as int, syl as int);
            lemma_mod_bound(sym_size as int, syl as int);
            assert(syl * count == count * syl) by (nonlinear_arith);
            assert(count <= count * syl) by (nonlinear_arith)
                requires
                    count >= 0,
                    syl >= 1,
            ;
        }
        let count_us = count as usize;
        let sym_off_us = sym_off as usize;
        let syl_us = syl as usize;
        let mut symbols: Vec<SymbolEntry> = Vec::new();
        let mut j: usize = 0;
        while j < count_us
            invariant
                j <= count_us,
                symbols@.len() == j,
                forall|k: int|
                    0 <= k < j ==> symbols@[k] == spec_symbol(b, c, little, sym_off + k * syl),
            decreases count_us - j,
        {
            proof {
                lemma_mul_inequality(j + 1, count as int, syl as int);
                assert((j + 1) * (syl as int) == j * (syl as int) + syl) by (nonlinear_arith);
            }
            let base = sym_off_us + j * syl_us;
            let name_off = read_word(&bytes, base, 4, little);
            let value: u64;
            let shndx: u64;
            if class32 {
                value = read_word(&bytes, base + 4, 4, little);
                shndx = read_word(&bytes, base + 14, 2, little);
            } else {
                value = read_word(&bytes, base + 8, 8, little);
                shndx = read_word(&bytes, base + 6, 2, little);
            }
            symbols.push(
                SymbolEntry {
                    name_offset: name_off as u32,
                    value_offset: value,
                    section_index: shndx as u16,
                },
            );
            proof {
                assert(base as int == sym_off + j * syl);
                assert(symbols@[j as int] == spec_symbol(b, c, little, sym_off + j * syl));
            }
            j += 1;
        }
        let img = BinaryImage {
            bytes,
            symbols,
            strtab_off: str_off as usize,
            strtab_len: str_size as usize,
        };
        proof {
            assert(img.model().symbols =~= Seq::new(
                count as nat,
                |k: int| spec_symbol(b, c, little, sym_off + k * symbol_len(c)),
            ));
            assert(img.model().strtab =~= b.subrange(str_off as int, str_off + str_size));
            assert(spec_parse(b) == Some(img.model()));
        }
        Ok(img)
    }

    /// Finds the first symbol-table entry whose name is exactly `name`.
    pub fn find_symbol(&self, name: &Vec<u8>) -> (r: Option<SymbolEntry>)
        requires
            self.wf(),
        ensures
            r == spec_find(self.model(), name@),
    {
        let n = self.symbols.len();
        let mut i: usize = 0;
        while i < n
            invariant
                self.wf(),
                n == self.symbols@.len(),
                i <= n,
                first_symbol_named(self.model(), name@, 0) == first_symbol_named(
                    self.model(),
                    name@,
                    i as int,
                ),
            decreases n - i,
        {
            if self.name_matches(self.symbols[i].name_offset, name) {
                return Some(self.symbols[i]);
            }
            i += 1;
        }
        None
    }
}

} // verus!
