//! Constant geometry of the unit cube and the triangulation lookup table.
//!
//! Corners are numbered 0..8 with the offsets below; edges are numbered 0..12
//! and are described by the offset of their minimum corner within the cell and
//! the axis along which they run.  The triangulation table gives, for each of
//! the 256 corner classifications, up to five triangles as triples of edge
//! numbers, packed four bits per entry with 15 as the end marker.
use vstd::prelude::*;

verus! {

/// Offset of cube corner `c` from the cell's minimum lattice point.
pub open spec fn corner_offset(c: int) -> (int, int, int) {
    if c == 0 { (0int, 0int, 0int) }
    else if c == 1 { (1int, 0int, 0int) }
    else if c == 2 { (1int, 1int, 0int) }
    else if c == 3 { (0int, 1int, 0int) }
    else if c == 4 { (0int, 0int, 1int) }
    else if c == 5 { (1int, 0int, 1int) }
    else if c == 6 { (1int, 1int, 1int) }
    else { (0int, 1int, 1int) }
}

/// Offset of the minimum corner of cube edge `e` within its cell.
pub open spec fn edge_offset(e: int) -> (int, int, int) {
    if e == 0 { (0int, 0int, 0int) }
    else if e == 1 { (1int, 0int, 0int) }
    else if e == 2 { (0int, 1int, 0int) }
    else if e == 3 { (0int, 0int, 0int) }
    else if e == 4 { (0int, 0int, 1int) }
    else if e == 5 { (1int, 0int, 1int) }
    else if e == 6 { (0int, 1int, 1int) }
    else if e == 7 { (0int, 0int, 1int) }
    else if e == 8 { (0int, 0int, 0int) }
    else if e == 9 { (1int, 0int, 0int) }
    else if e == 10 { (1int, 1int, 0int) }
    else { (0int, 1int, 0int) }
}

/// Axis along which cube edge `e` runs: 0 for x, 1 for y, 2 for z.
pub open spec fn edge_axis(e: int) -> int {
    if e == 0 { 0int }
    else if e == 1 { 1int }
    else if e == 2 { 0int }
    else if e == 3 { 1int }
    else if e == 4 { 0int }
    else if e == 5 { 1int }
    else if e == 6 { 0int }
    else if e == 7 { 1int }
    else if e == 8 { 2int }
    else if e == 9 { 2int }
    else if e == 10 { 2int }
    else { 2int }
}

/// Two distinct edges of one cell never share both minimum corner and axis,
/// so the canonical edge keys of one cell are pairwise distinct.
pub proof fn lemma_edge_identity_injective(e1: int, e2: int)
    requires
        0 <= e1 < 12,
        0 <= e2 < 12,
        edge_offset(e1) == edge_offset(e2),
        edge_axis(e1) == edge_axis(e2),
    ensures
        e1 == e2,
{
}

/// Executable edge geometry: minimum-corner offset and axis of edge `e`,
/// agreeing with `edge_offset` and `edge_axis`.
pub fn edge_shape(e: usize) -> (r: (usize, usize, usize, usize))
    requires
        e < 12,
    ensures
        (r.0 as int, r.1 as int, r.2 as int) == edge_offset(e as int),
        r.3 as int == edge_axis(e as int),
        r.0 <= 1 && r.1 <= 1 && r.2 <= 1 && r.3 < 3,
{
    match e {
        0 => (0usize, 0usize, 0usize, 0usize),
        1 => (1usize, 0usize, 0usize, 1usize),
        2 => (0usize, 1usize, 0usize, 0usize),
        3 => (0usize, 0usize, 0usize, 1usize),
        4 => (0usize, 0usize, 1usize, 0usize),
        5 => (1usize, 0usize, 1usize, 1usize),
        6 => (0usize, 1usize, 1usize, 0usize),
        7 => (0usize, 0usize, 1usize, 1usize),
        8 => (0usize, 0usize, 0usize, 2usize),
        9 => (1usize, 0usize, 0usize, 2usize),
        10 => (1usize, 1usize, 0usize, 2usize),
        11 => (0usize, 1usize, 0usize, 2usize),
        _ => (0usize, 1usize, 0usize, 2usize),
    }
}

/// Packed triangulation rows for classifications 0..64.
pub open spec fn tri_table_part0(c: int) -> u64 {
    if c == 0 { 0xffffffffffffffffu64 }
    else if c == 1 { 0xfffffffffffff380u64 }
    else if c == 2 { 0xfffffffffffff910u64 }
    else if c == 3 { 0xffffffffff381891u64 }
    else if c == 4 { 0xfffffffffffffa21u64 }
    else if c == 5 { 0xffffffffffa21380u64 }
    else if c == 6 { 0xffffffffff9a0a20u64 }
    else if c == 7 { 0xfffffff3828929a2u64 }
    else if c == 8 { 0xfffffffffffffb32u64 }
    else if c == 9 { 0xffffffffff2b0b80u64 }
    else if c == 10 { 0xffffffffffb32910u64 }
    else if c == 11 { 0xfffffff2b1b81891u64 }
    else if c == 12 { 0xffffffffffab1b31u64 }
    else if c == 13 { 0xfffffff1a0ab0b80u64 }
    else if c == 14 { 0xfffffff9a0ab0b30u64 }
    else if c == 15 { 0xffffffffff9a8ab8u64 }
    else if c == 16 { 0xfffffffffffff874u64 }
    else if c == 17 { 0xffffffffff370740u64 }
    else if c == 18 { 0xffffffffff874910u64 }
    else if c == 19 { 0xfffffff371741491u64 }
    else if c == 20 { 0xffffffffff874a21u64 }
    else if c == 21 { 0xfffffffa21370740u64 }
    else if c == 22 { 0xfffffff8749a0a20u64 }
    else if c == 23 { 0xffff3727424929a2u64 }
    else if c == 24 { 0xffffffffff874b32u64 }
    else if c == 25 { 0xfffffff2b0b70740u64 }
    else if c == 26 { 0xfffffff874b32910u64 }
    else if c == 27 { 0xffff2b1b71741491u64 }
    else if c == 28 { 0xfffffff874ab1b31u64 }
    else if c == 29 { 0xffff1a0ab0b70740u64 }
    else if c == 30 { 0xffff8749a0ab0b30u64 }
    else if c == 31 { 0xfffffff9a4ab4b74u64 }
    else if c == 32 { 0xfffffffffffff594u64 }
    else if c == 33 { 0xffffffffff594380u64 }
    else if c == 34 { 0xffffffffff450510u64 }
    else if c == 35 { 0xfffffff381841451u64 }
    else if c == 36 { 0xffffffffff594a21u64 }
    else if c == 37 { 0xfffffff594a21380u64 }
    else if c == 38 { 0xfffffff4505a0a20u64 }
    else if c == 39 { 0xffff3828424525a2u64 }
    else if c == 40 { 0xffffffffff594b32u64 }
    else if c == 41 { 0xfffffff5942b0b80u64 }
    else if c == 42 { 0xfffffffb32450510u64 }
    else if c == 43 { 0xffff2b1b81841451u64 }
    else if c == 44 { 0xfffffff594ab1b31u64 }
    else if c == 45 { 0xffff5941a0ab0b80u64 }
    else if c == 46 { 0xffff4505a0ab0b30u64 }
    else if c == 47 { 0xfffffff5a4ab4b84u64 }
    else if c == 48 { 0xffffffffff985875u64 }
    else if c == 49 { 0xfffffff370750590u64 }
    else if c == 50 { 0xfffffff870750510u64 }
    else if c == 51 { 0xffffffffff371751u64 }
    else if c == 52 { 0xfffffff985875a21u64 }
    else if c == 53 { 0xffffa21370750590u64 }
    else if c == 54 { 0xffff8707505a0a20u64 }
    else if c == 55 { 0xfffffff3727525a2u64 }
    else if c == 56 { 0xfffffff985875b32u64 }
    else if c == 57 { 0xffff2b0b70750590u64 }
    else if c == 58 { 0xffffb32870750510u64 }
    else if c == 59 { 0xfffffff2b1b71751u64 }
    else if c == 60 { 0xffff985875ab1b31u64 }
    else if c == 61 { 0xf1a0ab0b70750590u64 }
    else if c == 62 { 0xf8707505a0ab0b30u64 }
    else { 0xffffffffffab5b75u64 }
}

/// Packed triangulation rows for classifications 64..128.
pub open spec fn tri_table_part1(c: int) -> u64 {
    if c == 64 { 0xfffffffffffff6a5u64 }
    else if c == 65 { 0xffffffffff6a5380u64 }
    else if c == 66 { 0xffffffffff6a5910u64 }
    else if c == 67 { 0xfffffff6a5381891u64 }
    else if c == 68 { 0xffffffffff561621u64 }
    else if c == 69 { 0xfffffff561621380u64 }
    else if c == 70 { 0xfffffff950560620u64 }
    else if c == 71 { 0xffff382892952562u64 }
    else if c == 72 { 0xffffffffff6a5b32u64 }
    else if c == 73 { 0xfffffff6a52b0b80u64 }
    else if c == 74 { 0xfffffff6a5b32910u64 }
    else if c == 75 { 0xffff6a52b1b81891u64 }
    else if c == 76 { 0xfffffff5616b1b31u64 }
    else if c == 77 { 0xffff1505606b0b80u64 }
    else if c == 78 { 0xffff9505606b0b30u64 }
    else if c == 79 { 0xfffffff6b5b85895u64 }
    else if c == 80 { 0xffffffffff6a5874u64 }
    else if c == 81 { 0xfffffff6a5370740u64 }
    else if c == 82 { 0xfffffff6a5874910u64 }
    else if c == 83 { 0xffff6a5371741491u64 }
    else if c == 84 { 0xfffffff874561621u64 }
    else if c == 85 { 0xffff561621370740u64 }
    else if c == 86 { 0xffff874950560620u64 }
    else if c == 87 { 0xf372742492952562u64 }
    else if c == 88 { 0xfffffff6a5874b32u64 }
    else if c == 89 { 0xffff6a52b0b70740u64 }
    else if c == 90 { 0xffff6a5874b32910u64 }
    else if c == 91 { 0xf6a52b1b71741491u64 }
    else if c == 92 { 0xffff8745616b1b31u64 }
    else if c == 93 { 0xf1505606b0b70740u64 }
    else if c == 94 { 0xf8749505606b0b30u64 }
    else if c == 95 { 0xffff9545646b4b74u64 }
    else if c == 96 { 0xffffffffff6a4a94u64 }
    else if c == 97 { 0xfffffff6a4a94380u64 }
    else if c == 98 { 0xfffffff4606a0a10u64 }
    else if c == 99 { 0xffff3818414616a1u64 }
    else if c == 100 { 0xfffffff941461621u64 }
    else if c == 101 { 0xffff941461621380u64 }
    else if c == 102 { 0xffffffffff460620u64 }
    else if c == 103 { 0xfffffff382842462u64 }
    else if c == 104 { 0xfffffff6a4a94b32u64 }
    else if c == 105 { 0xffff6a4a942b0b80u64 }
    else if c == 106 { 0xffffb324606a0a10u64 }
    else if c == 107 { 0xf2b1b818414616a1u64 }
    else if c == 108 { 0xffff9414616b1b31u64 }
    else if c == 109 { 0xf1909404606b0b80u64 }
    else if c == 110 { 0xfffffff4606b0b30u64 }
    else if c == 111 { 0xffffffffff6b4b84u64 }
    else if c == 112 { 0xfffffffa96986876u64 }
    else if c == 113 { 0xffff3707606a0a90u64 }
    else if c == 114 { 0xffff8707606a0a10u64 }
    else if c == 115 { 0xfffffff3717616a1u64 }
    else if c == 116 { 0xffff981871761621u64 }
    else if c == 117 { 0xf370760620210190u64 }
    else if c == 118 { 0xfffffff870760620u64 }
    else if c == 119 { 0xffffffffff372762u64 }
    else if c == 120 { 0xffffa96986876b32u64 }
    else if c == 121 { 0xf2b0b707606a0a90u64 }
    else if c == 122 { 0xfb328707606a0a10u64 }
    else if c == 123 { 0xffff2b1b717616a1u64 }
    else if c == 124 { 0xf9818717616b1b31u64 }
    else if c == 125 { 0xffffffffffb76190u64 }
    else if c == 126 { 0xffff8707606b0b30u64 }
    else { 0xfffffffffffffb76u64 }
}

/// Packed triangulation rows for classifications 128..192.
pub open spec fn tri_table_part2(c: int) -> u64 {
    if c == 128 { 0xfffffffffffff7b6u64 }
    else if c == 129 { 0xffffffffff7b6380u64 }
    else if c == 130 { 0xffffffffff7b6910u64 }
    else if c == 131 { 0xfffffff7b6381891u64 }
    else if c == 132 { 0xffffffffff7b6a21u64 }
    else if c == 133 { 0xfffffff7b6a21380u64 }
    else if c == 134 { 0xfffffff7b69a0a20u64 }
    else if c == 135 { 0xffff7b63828929a2u64 }
    else if c == 136 { 0xffffffffff672732u64 }
    else if c == 137 { 0xfffffff260670780u64 }
    else if c == 138 { 0xfffffff672732910u64 }
    else if c == 139 { 0xffff261671781891u64 }
    else if c == 140 { 0xfffffffa61671731u64 }
    else if c == 141 { 0xffff1a0a60670780u64 }
    else if c == 142 { 0xffff9a0a60670730u64 }
    else if c == 143 { 0xfffffff7868969a6u64 }
    else if c == 144 { 0xffffffffff8b4b64u64 }
    else if c == 145 { 0xfffffff3b0b60640u64 }
    else if c == 146 { 0xfffffff8b4b64910u64 }
    else if c == 147 { 0xffff3b1b61641491u64 }
    else if c == 148 { 0xfffffff8b4b64a21u64 }
    else if c == 149 { 0xffffa213b0b60640u64 }
    else if c == 150 { 0xffff8b4b649a0a20u64 }
    else if c == 151 { 0xf3b2b626424929a2u64 }
    else if c == 152 { 0xfffffff642482832u64 }
    else if c == 153 { 0xffffffffff260640u64 }
    else if c == 154 { 0xffff642482832910u64 }
    else if c == 155 { 0xfffffff261641491u64 }
    else if c == 156 { 0xffffa61641481831u64 }
    else if c == 157 { 0xfffffff1a0a60640u64 }
    else if c == 158 { 0xf9a0a60640480830u64 }
    else if c == 159 { 0xffffffffff9a4a64u64 }
    else if c == 160 { 0xffffffffff7b6594u64 }
    else if c == 161 { 0xfffffff7b6594380u64 }
    else if c == 162 { 0xfffffff7b6450510u64 }
    else if c == 163 { 0xffff7b6381841451u64 }
    else if c == 164 { 0xfffffff7b6594a21u64 }
    else if c == 165 { 0xffff7b6594a21380u64 }
    else if c == 166 { 0xffff7b64505a0a20u64 }
    else if c == 167 { 0xf7b63828424525a2u64 }
    else if c == 168 { 0xfffffff594672732u64 }
    else if c == 169 { 0xffff594260670780u64 }
    else if c == 170 { 0xffff672732450510u64 }
    else if c == 171 { 0xf261671781841451u64 }
    else if c == 172 { 0xffff594a61671731u64 }
    else if c == 173 { 0xf5941a0a60670780u64 }
    else if c == 174 { 0xf4505a0a60670730u64 }
    else if c == 175 { 0xffff5a4a64674784u64 }
    else if c == 176 { 0xfffffff9858b5b65u64 }
    else if c == 177 { 0xffff3b0b60650590u64 }
    else if c == 178 { 0xffff8b0b60650510u64 }
    else if c == 179 { 0xfffffff3b1b61651u64 }
    else if c == 180 { 0xffff9858b5b65a21u64 }
    else if c == 181 { 0xfa213b0b60650590u64 }
    else if c == 182 { 0xf8b0b606505a0a20u64 }
    else if c == 183 { 0xffff3b2b626525a2u64 }
    else if c == 184 { 0xffff652592982832u64 }
    else if c == 185 { 0xfffffff260650590u64 }
    else if c == 186 { 0xf830320260650510u64 }
    else if c == 187 { 0xffffffffff261651u64 }
    else if c == 188 { 0xfa61651591981831u64 }
    else if c == 189 { 0xffff1a0a60650590u64 }
    else if c == 190 { 0xffffffffffa65830u64 }
    else { 0xfffffffffffffa65u64 }
}

/// Packed triangulation rows for classifications 192..256.
pub open spec fn tri_table_part3(c: int) -> u64 {
    if c == 192 { 0xffffffffff7b5ba5u64 }
    else if c == 193 { 0xfffffff7b5ba5380u64 }
    else if c == 194 { 0xfffffff7b5ba5910u64 }
    else if c == 195 { 0xffff7b5ba5381891u64 }
    else if c == 196 { 0xfffffff5717b1b21u64 }
    else if c == 197 { 0xffff5717b1b21380u64 }
    else if c == 198 { 0xffff9505707b0b20u64 }
    else if c == 199 { 0xf3828929525727b2u64 }
    else if c == 200 { 0xfffffffa52572732u64 }
    else if c == 201 { 0xffff2a0a50570780u64 }
    else if c == 202 { 0xffffa52572732910u64 }
    else if c == 203 { 0xf2a1a51571781891u64 }
    else if c == 204 { 0xffffffffff571731u64 }
    else if c == 205 { 0xfffffff150570780u64 }
    else if c == 206 { 0xfffffff950570730u64 }
    else if c == 207 { 0xffffffffff785895u64 }
    else if c == 208 { 0xfffffff8b4ba4a54u64 }
    else if c == 209 { 0xffff3b0ba0a50540u64 }
    else if c == 210 { 0xffff8b4ba4a54910u64 }
    else if c == 211 { 0xf3b1ba1a51541491u64 }
    else if c == 212 { 0xffff5414818b1b21u64 }
    else if c == 213 { 0xf3b0b20210150540u64 }
    else if c == 214 { 0xf9505404808b0b20u64 }
    else if c == 215 { 0xffffffffff9543b2u64 }
    else if c == 216 { 0xffffa52542482832u64 }
    else if c == 217 { 0xfffffff2a0a50540u64 }
    else if c == 218 { 0xfa52542482832910u64 }
    else if c == 219 { 0xffff2a1a51541491u64 }
    else if c == 220 { 0xfffffff541481831u64 }
    else if c == 221 { 0xffffffffff150540u64 }
    else if c == 222 { 0xffff950540480830u64 }
    else if c == 223 { 0xfffffffffffff954u64 }
    else if c == 224 { 0xfffffff7b4ba4a94u64 }
    else if c == 225 { 0xffff7b4ba4a94380u64 }
    else if c == 226 { 0xffff4707b0ba0a10u64 }
    else if c == 227 { 0xf3818414717b1ba1u64 }
    else if c == 228 { 0xffff9414717b1b21u64 }
    else if c == 229 { 0xf9414717b1b21380u64 }
    else if c == 230 { 0xfffffff4707b0b20u64 }
    else if c == 231 { 0xffff3828424727b2u64 }
    else if c == 232 { 0xffffa92942472732u64 }
    else if c == 233 { 0xf2a0a90940470780u64 }
    else if c == 234 { 0xf4707303202a0a10u64 }
    else if c == 235 { 0xffffffffff7842a1u64 }
    else if c == 236 { 0xfffffff941471731u64 }
    else if c == 237 { 0xffff190940470780u64 }
    else if c == 238 { 0xffffffffff470730u64 }
    else if c == 239 { 0xfffffffffffff784u64 }
    else if c == 240 { 0xffffffffffba8a98u64 }
    else if c == 241 { 0xfffffff3b0ba0a90u64 }
    else if c == 242 { 0xfffffff8b0ba0a10u64 }
    else if c == 243 { 0xffffffffff3b1ba1u64 }
    else if c == 244 { 0xfffffff9818b1b21u64 }
    else if c == 245 { 0xffff3b0b20210190u64 }
    else if c == 246 { 0xffffffffff8b0b20u64 }
    else if c == 247 { 0xfffffffffffff3b2u64 }
    else if c == 248 { 0xfffffffa92982832u64 }
    else if c == 249 { 0xffffffffff2a0a90u64 }
    else if c == 250 { 0xffff8303202a0a10u64 }
    else if c == 251 { 0xfffffffffffff2a1u64 }
    else if c == 252 { 0xffffffffff981831u64 }
    else if c == 253 { 0xfffffffffffff190u64 }
    else if c == 254 { 0xfffffffffffff830u64 }
    else { 0xffffffffffffffffu64 }
}

/// Triangulation of corner classification `c`: triples of edge numbers,
/// packed four bits per entry (entry `j` at bits `4 * j`), 15 marking the end.
pub open spec fn tri_table_row(c: int) -> u64 {
    if c < 64 { tri_table_part0(c) }
    else if c < 128 { tri_table_part1(c) }
    else if c < 192 { tri_table_part2(c) }
    else { tri_table_part3(c) }
}

/// Executable triangulation lookup, agreeing with `tri_table_row`.
pub fn tri_row(c: u8) -> (r: u64)
    ensures
        r == tri_table_row(c as int),
{
    match c {
        0 => 0xffffffffffffffffu64,
        1 => 0xfffffffffffff380u64,
        2 => 0xfffffffffffff910u64,
        3 => 0xffffffffff381891u64,
        4 => 0xfffffffffffffa21u64,
        5 => 0xffffffffffa21380u64,
        6 => 0xffffffffff9a0a20u64,
        7 => 0xfffffff3828929a2u64,
        8 => 0xfffffffffffffb32u64,
        9 => 0xffffffffff2b0b80u64,
        10 => 0xffffffffffb32910u64,
        11 => 0xfffffff2b1b81891u64,
        12 => 0xffffffffffab1b31u64,
        13 => 0xfffffff1a0ab0b80u64,
        14 => 0xfffffff9a0ab0b30u64,
        15 => 0xffffffffff9a8ab8u64,
        16 => 0xfffffffffffff874u64,
        17 => 0xffffffffff370740u64,
        18 => 0xffffffffff874910u64,
        19 => 0xfffffff371741491u64,
        20 => 0xffffffffff874a21u64,
        21 => 0xfffffffa21370740u64,
        22 => 0xfffffff8749a0a20u64,
        23 => 0xffff3727424929a2u64,
        24 => 0xffffffffff874b32u64,
        25 => 0xfffffff2b0b70740u64,
        26 => 0xfffffff874b32910u64,
        27 => 0xffff2b1b71741491u64,
        28 => 0xfffffff874ab1b31u64,
        29 => 0xffff1a0ab0b70740u64,
        30 => 0xffff8749a0ab0b30u64,
        31 => 0xfffffff9a4ab4b74u64,
        32 => 0xfffffffffffff594u64,
        33 => 0xffffffffff594380u64,
        34 => 0xffffffffff450510u64,
        35 => 0xfffffff381841451u64,
        36 => 0xffffffffff594a21u64,
        37 => 0xfffffff594a21380u64,
        38 => 0xfffffff4505a0a20u64,
        39 => 0xffff3828424525a2u64,
        40 => 0xffffffffff594b32u64,
        41 => 0xfffffff5942b0b80u64,
        42 => 0xfffffffb32450510u64,
        43 => 0xffff2b1b81841451u64,
        44 => 0xfffffff594ab1b31u64,
        45 => 0xffff5941a0ab0b80u64,
        46 => 0xffff4505a0ab0b30u64,
        47 => 0xfffffff5a4ab4b84u64,
        48 => 0xffffffffff985875u64,
        49 => 0xfffffff370750590u64,
        50 => 0xfffffff870750510u64,
        51 => 0xffffffffff371751u64,
        52 => 0xfffffff985875a21u64,
        53 => 0xffffa21370750590u64,
        54 => 0xffff8707505a0a20u64,
        55 => 0xfffffff3727525a2u64,
        56 => 0xfffffff985875b32u64,
        57 => 0xffff2b0b70750590u64,
        58 => 0xffffb32870750510u64,
        59 => 0xfffffff2b1b71751u64,
        60 => 0xffff985875ab1b31u64,
        61 => 0xf1a0ab0b70750590u64,
        62 => 0xf8707505a0ab0b30u64,
        63 => 0xffffffffffab5b75u64,
        64 => 0xfffffffffffff6a5u64,
        65 => 0xffffffffff6a5380u64,
        66 => 0xffffffffff6a5910u64,
        67 => 0xfffffff6a5381891u64,
        68 => 0xffffffffff561621u64,
        69 => 0xfffffff561621380u64,
        70 => 0xfffffff950560620u64,
        71 => 0xffff382892952562u64,
        72 => 0xffffffffff6a5b32u64,
        73 => 0xfffffff6a52b0b80u64,
        74 => 0xfffffff6a5b32910u64,
        75 => 0xffff6a52b1b81891u64,
        76 => 0xfffffff5616b1b31u64,
        77 => 0xffff1505606b0b80u64,
        78 => 0xffff9505606b0b30u64,
        79 => 0xfffffff6b5b85895u64,
        80 => 0xffffffffff6a5874u64,
        81 => 0xfffffff6a5370740u64,
        82 => 0xfffffff6a5874910u64,
        83 => 0xffff6a5371741491u64,
        84 => 0xfffffff874561621u64,
        85 => 0xffff561621370740u64,
        86 => 0xffff874950560620u64,
        87 => 0xf372742492952562u64,
        88 => 0xfffffff6a5874b32u64,
        89 => 0xffff6a52b0b70740u64,
        90 => 0xffff6a5874b32910u64,
        91 => 0xf6a52b1b71741491u64,
        92 => 0xffff8745616b1b31u64,
        93 => 0xf1505606b0b70740u64,
        94 => 0xf8749505606b0b30u64,
        95 => 0xffff9545646b4b74u64,
        96 => 0xffffffffff6a4a94u64,
        97 => 0xfffffff6a4a94380u64,
        98 => 0xfffffff4606a0a10u64,
        99 => 0xffff3818414616a1u64,
        100 => 0xfffffff941461621u64,
        101 => 0xffff941461621380u64,
        102 => 0xffffffffff460620u64,
        103 => 0xfffffff382842462u64,
        104 => 0xfffffff6a4a94b32u64,
        105 => 0xffff6a4a942b0b80u64,
        106 => 0xffffb324606a0a10u64,
        107 => 0xf2b1b818414616a1u64,
        108 => 0xffff9414616b1b31u64,
        109 => 0xf1909404606b0b80u64,
        110 => 0xfffffff4606b0b30u64,
        111 => 0xffffffffff6b4b84u64,
        112 => 0xfffffffa96986876u64,
        113 => 0xffff3707606a0a90u64,
        114 => 0xffff8707606a0a10u64,
        115 => 0xfffffff3717616a1u64,
        116 => 0xffff981871761621u64,
        117 => 0xf370760620210190u64,
        118 => 0xfffffff870760620u64,
        119 => 0xffffffffff372762u64,
        120 => 0xffffa96986876b32u64,
        121 => 0xf2b0b707606a0a90u64,
        122 => 0xfb328707606a0a10u64,
        123 => 0xffff2b1b717616a1u64,
        124 => 0xf9818717616b1b31u64,
        125 => 0xffffffffffb76190u64,
        126 => 0xffff8707606b0b30u64,
        127 => 0xfffffffffffffb76u64,
        128 => 0xfffffffffffff7b6u64,
        129 => 0xffffffffff7b6380u64,
        130 => 0xffffffffff7b6910u64,
        131 => 0xfffffff7b6381891u64,
        132 => 0xffffffffff7b6a21u64,
        133 => 0xfffffff7b6a21380u64,
        134 => 0xfffffff7b69a0a20u64,
        135 => 0xffff7b63828929a2u64,
        136 => 0xffffffffff672732u64,
        137 => 0xfffffff260670780u64,
        138 => 0xfffffff672732910u64,
        139 => 0xffff261671781891u64,
        140 => 0xfffffffa61671731u64,
        141 => 0xffff1a0a60670780u64,
        142 => 0xffff9a0a60670730u64,
        143 => 0xfffffff7868969a6u64,
        144 => 0xffffffffff8b4b64u64,
        145 => 0xfffffff3b0b60640u64,
        146 => 0xfffffff8b4b64910u64,
        147 => 0xffff3b1b61641491u64,
        148 => 0xfffffff8b4b64a21u64,
        149 => 0xffffa213b0b60640u64,
        150 => 0xffff8b4b649a0a20u64,
        151 => 0xf3b2b626424929a2u64,
        152 => 0xfffffff642482832u64,
        153 => 0xffffffffff260640u64,
        154 => 0xffff642482832910u64,
        155 => 0xfffffff261641491u64,
        156 => 0xffffa61641481831u64,
        157 => 0xfffffff1a0a60640u64,
        158 => 0xf9a0a60640480830u64,
        159 => 0xffffffffff9a4a64u64,
        160 => 0xffffffffff7b6594u64,
        161 => 0xfffffff7b6594380u64,
        162 => 0xfffffff7b6450510u64,
        163 => 0xffff7b6381841451u64,
        164 => 0xfffffff7b6594a21u64,
        165 => 0xffff7b6594a21380u64,
        166 => 0xffff7b64505a0a20u64,
        167 => 0xf7b63828424525a2u64,
        168 => 0xfffffff594672732u64,
        169 => 0xffff594260670780u64,
        170 => 0xffff672732450510u64,
        171 => 0xf261671781841451u64,
        172 => 0xffff594a61671731u64,
        173 => 0xf5941a0a60670780u64,
        174 => 0xf4505a0a60670730u64,
        175 => 0xffff5a4a64674784u64,
        176 => 0xfffffff9858b5b65u64,
        177 => 0xffff3b0b60650590u64,
        178 => 0xffff8b0b60650510u64,
        179 => 0xfffffff3b1b61651u64,
        180 => 0xffff9858b5b65a21u64,
        181 => 0xfa213b0b60650590u64,
        182 => 0xf8b0b606505a0a20u64,
        183 => 0xffff3b2b626525a2u64,
        184 => 0xffff652592982832u64,
        185 => 0xfffffff260650590u64,
        186 => 0xf830320260650510u64,
        187 => 0xffffffffff261651u64,
        188 => 0xfa61651591981831u64,
        189 => 0xffff1a0a60650590u64,
        190 => 0xffffffffffa65830u64,
        191 => 0xfffffffffffffa65u64,
        192 => 0xffffffffff7b5ba5u64,
        193 => 0xfffffff7b5ba5380u64,
        194 => 0xfffffff7b5ba5910u64,
        195 => 0xffff7b5ba5381891u64,
        196 => 0xfffffff5717b1b21u64,
        197 => 0xffff5717b1b21380u64,
        198 => 0xffff9505707b0b20u64,
        199 => 0xf3828929525727b2u64,
        200 => 0xfffffffa52572732u64,
        201 => 0xffff2a0a50570780u64,
        202 => 0xffffa52572732910u64,
        203 => 0xf2a1a51571781891u64,
        204 => 0xffffffffff571731u64,
        205 => 0xfffffff150570780u64,
        206 => 0xfffffff950570730u64,
        207 => 0xffffffffff785895u64,
        208 => 0xfffffff8b4ba4a54u64,
        209 => 0xffff3b0ba0a50540u64,
        210 => 0xffff8b4ba4a54910u64,
        211 => 0xf3b1ba1a51541491u64,
        212 => 0xffff5414818b1b21u64,
        213 => 0xf3b0b20210150540u64,
        214 => 0xf9505404808b0b20u64,
        215 => 0xffffffffff9543b2u64,
        216 => 0xffffa52542482832u64,
        217 => 0xfffffff2a0a50540u64,
        218 => 0xfa52542482832910u64,
        219 => 0xffff2a1a51541491u64,
        220 => 0xfffffff541481831u64,
        221 => 0xffffffffff150540u64,
        222 => 0xffff950540480830u64,
        223 => 0xfffffffffffff954u64,
        224 => 0xfffffff7b4ba4a94u64,
        225 => 0xffff7b4ba4a94380u64,
        226 => 0xffff4707b0ba0a10u64,
        227 => 0xf3818414717b1ba1u64,
        228 => 0xffff9414717b1b21u64,
        229 => 0xf9414717b1b21380u64,
        230 => 0xfffffff4707b0b20u64,
        231 => 0xffff3828424727b2u64,
        232 => 0xffffa92942472732u64,
        233 => 0xf2a0a90940470780u64,
        234 => 0xf4707303202a0a10u64,
        235 => 0xffffffffff7842a1u64,
        236 => 0xfffffff941471731u64,
        237 => 0xffff190940470780u64,
        238 => 0xffffffffff470730u64,
        239 => 0xfffffffffffff784u64,
        240 => 0xffffffffffba8a98u64,
        241 => 0xfffffff3b0ba0a90u64,
        242 => 0xfffffff8b0ba0a10u64,
        243 => 0xffffffffff3b1ba1u64,
        244 => 0xfffffff9818b1b21u64,
        245 => 0xffff3b0b20210190u64,
        246 => 0xffffffffff8b0b20u64,
        247 => 0xfffffffffffff3b2u64,
        248 => 0xfffffffa92982832u64,
        249 => 0xffffffffff2a0a90u64,
        250 => 0xffff8303202a0a10u64,
        251 => 0xfffffffffffff2a1u64,
        252 => 0xffffffffff981831u64,
        253 => 0xfffffffffffff190u64,
        254 => 0xfffffffffffff830u64,
        _ => 0xffffffffffffffffu64,
    }
}

/// Corner number of the minimum endpoint of cube edge `e`.
pub open spec fn edge_corner_low(e: int) -> int {
    if e == 0 { 0int }
    else if e == 1 { 1int }
    else if e == 2 { 3int }
    else if e == 3 { 0int }
    else if e == 4 { 4int }
    else if e == 5 { 5int }
    else if e == 6 { 7int }
    else if e == 7 { 4int }
    else if e == 8 { 0int }
    else if e == 9 { 1int }
    else if e == 10 { 2int }
    else { 3int }
}

/// Corner number of the maximum endpoint of cube edge `e`.
pub open spec fn edge_corner_high(e: int) -> int {
    if e == 0 { 1int }
    else if e == 1 { 2int }
    else if e == 2 { 2int }
    else if e == 3 { 3int }
    else if e == 4 { 5int }
    else if e == 5 { 6int }
    else if e == 6 { 6int }
    else if e == 7 { 7int }
    else if e == 8 { 4int }
    else if e == 9 { 5int }
    else if e == 10 { 6int }
    else { 7int }
}

/// The endpoints of edge `e` are cube corners: the low one sits at the
/// edge's minimum-corner offset and the high one a single step further along
/// the edge's axis.
pub proof fn lemma_edge_corners(e: int)
    requires
        0 <= e < 12,
    ensures
        0 <= edge_corner_low(e) < 8,
        0 <= edge_corner_high(e) < 8,
        corner_offset(edge_corner_low(e)) == edge_offset(e),
        corner_offset(edge_corner_high(e)) == {
            let o = edge_offset(e);
            if edge_axis(e) == 0 {
                (o.0 + 1, o.1, o.2)
            } else if edge_axis(e) == 1 {
                (o.0, o.1 + 1, o.2)
            } else {
                (o.0, o.1, o.2 + 1)
            }
        },
{
}

} // verus!
