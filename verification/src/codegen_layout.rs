//! Laws of the generated Rust types: what each contract type becomes, and
//! how many bytes the generated type takes, from Rust's layout rules.
use vstd::prelude::*;
use crate::codegen::{field_size, max_len_or, rust_type, FieldContract};
use crate::strutil::has_prefix;
use crate::text::decimal;

verus! {

/// A primitive Rust number type.
pub enum PrimType {
    U8,
    U16,
    U32,
    U64,
    I32,
    F64,
}

/// An element of a generated fixed-capacity vector.
pub enum VecElem {
    /// `u8`.
    Byte,
    /// `[u8; n]`.
    Bytes(nat),
}

/// The shape of a Rust type in generated code.
pub enum GenType {
    /// A number.
    Prim(PrimType),
    /// `[u8; n]`.
    Bytes(nat),
    /// `[[u8; a]; b]`.
    ByteArrays(nat, nat),
    /// `FixedStr<n>`.
    Str(nat),
    /// `FixedVec<e, n>`.
    Vec(VecElem, nat),
}

/// The name of a primitive type.
pub open spec fn prim_text(p: PrimType) -> Seq<char> {
    match p {
        PrimType::U8 => "u8"@,
        PrimType::U16 => "u16"@,
        PrimType::U32 => "u32"@,
        PrimType::U64 => "u64"@,
        PrimType::I32 => "i32"@,
        PrimType::F64 => "f64"@,
    }
}

/// Rust's size of a primitive type, in bytes.
pub open spec fn prim_bytes(p: PrimType) -> nat {
    match p {
        PrimType::U8 => 1,
        PrimType::U16 => 2,
        PrimType::U32 => 4,
        PrimType::U64 => 8,
        PrimType::I32 => 4,
        PrimType::F64 => 8,
    }
}

/// The text of `[u8; n]`.
pub open spec fn bytes_text(n: nat) -> Seq<char> {
    "[u8; "@ + decimal(n) + "]"@
}

/// The text of a vector element type.
pub open spec fn elem_text(e: VecElem) -> Seq<char> {
    match e {
        VecElem::Byte => "u8"@,
        VecElem::Bytes(n) => bytes_text(n),
    }
}

/// The size of a vector element, in bytes.
pub open spec fn elem_bytes(e: VecElem) -> nat {
    match e {
        VecElem::Byte => 1,
        VecElem::Bytes(n) => n,
    }
}

/// The text of a generated type.
pub open spec fn gen_text(t: GenType) -> Seq<char> {
    match t {
        GenType::Prim(p) => prim_text(p),
        GenType::Bytes(n) => bytes_text(n),
        GenType::ByteArrays(a, b) => "["@ + bytes_text(a) + "; "@ + decimal(b) + "]"@,
        GenType::Str(n) => "FixedStr<"@ + decimal(n) + ">"@,
        GenType::Vec(e, n) => "FixedVec<"@ + elem_text(e) + ", "@ + decimal(n) + ">"@,
    }
}

/// The size of a generated type in bytes: numbers by their width, arrays by
/// their elements, and `FixedStr` and `FixedVec` as a `u16` count, six
/// padding bytes and their `n` slots.
pub open spec fn gen_bytes(t: GenType) -> nat {
    match t {
        GenType::Prim(p) => prim_bytes(p),
        GenType::Bytes(n) => n,
        GenType::ByteArrays(a, b) => a * b,
        GenType::Str(n) => 2 + 6 + n,
        GenType::Vec(e, n) => 2 + 6 + elem_bytes(e) * n,
    }
}

/// The generated type of a field with a size, as its shape.
pub open spec fn field_gen_type(f: FieldContract) -> GenType {
    let s = f.field_type@;
    if s == "u8"@ {
        GenType::Prim(PrimType::U8)
    } else if s == "u16"@ {
        GenType::Prim(PrimType::U16)
    } else if s == "u32"@ {
        GenType::Prim(PrimType::U32)
    } else if s == "u64"@ {
        GenType::Prim(PrimType::U64)
    } else if s == "i32"@ {
        GenType::Prim(PrimType::I32)
    } else if s == "f64"@ {
        GenType::Prim(PrimType::F64)
    } else if s == "[u8; 16]"@ {
        GenType::Bytes(16)
    } else if s == "[u8; 20]"@ {
        GenType::Bytes(20)
    } else if s == "[u8; 32]"@ || s == "U256"@ {
        GenType::Bytes(32)
    } else if s == "[u8; 6]"@ {
        GenType::Bytes(6)
    } else if s == "String"@ {
        GenType::Str(max_len_or(f, 32))
    } else if s == "Vec<[u8; 20]>"@ {
        GenType::Vec(VecElem::Bytes(20), max_len_or(f, 4))
    } else if s == "Vec<[u8; 32]>"@ {
        GenType::Vec(VecElem::Bytes(32), max_len_or(f, 4))
    } else if s == "Vec<u8>"@ {
        GenType::Vec(VecElem::Byte, max_len_or(f, 16))
    } else if s == "[[u8; 32]; 256]"@ {
        GenType::ByteArrays(32, 256)
    } else if s == "[[u8; 32]; 6]"@ {
        GenType::ByteArrays(32, 6)
    } else {
        GenType::ByteArrays(20, 6)
    }
}

/// Law: the bytes a field adds to a message's size are the bytes of the Rust
/// type it is generated as. (The one exception, kept from the generator, is
/// a `String` field with a `max_length` other than 32: it is generated as
/// `FixedStr<max_length>` but always counted as 40 bytes.)
pub proof fn lemma_field_size_is_generated_layout(f: FieldContract)
    requires
        field_size(f) is Some,
        f.field_type@ == "String"@ ==> max_len_or(f, 32) == 32,
    ensures
        exists|t: GenType|
            rust_type(f.field_type@, f) == Some(gen_text(t)) && field_size(f) == Some(
                #[trigger] gen_bytes(t),
            ),
{
    let s = f.field_type@;
    let w = field_gen_type(f);
    reveal_with_fuel(decimal, 4);
    assert(elem_bytes(VecElem::Byte) == 1);
    if s == "u8"@ {
        assert(gen_text(GenType::Prim(PrimType::U8)) == s);
        assert(gen_bytes(GenType::Prim(PrimType::U8)) == 1);
        assert(rust_type(s, f) == Some(gen_text(w)) && field_size(f) == Some(gen_bytes(w)));
    } else if s == "u16"@ {
        assert(gen_text(GenType::Prim(PrimType::U16)) == s);
        assert(gen_bytes(GenType::Prim(PrimType::U16)) == 2);
        assert(rust_type(s, f) == Some(gen_text(w)) && field_size(f) == Some(gen_bytes(w)));
    } else if s == "u32"@ {
        assert(gen_text(GenType::Prim(PrimType::U32)) == s);
        assert(gen_bytes(GenType::Prim(PrimType::U32)) == 4);
        assert(rust_type(s, f) == Some(gen_text(w)) && field_size(f) == Some(gen_bytes(w)));
    } else if s == "u64"@ {
        assert(gen_text(GenType::Prim(PrimType::U64)) == s);
        assert(gen_bytes(GenType::Prim(PrimType::U64)) == 8);
        assert(rust_type(s, f) == Some(gen_text(w)) && field_size(f) == Some(gen_bytes(w)));
    } else if s == "i32"@ {
        assert(gen_text(GenType::Prim(PrimType::I32)) == s);
        assert(gen_bytes(GenType::Prim(PrimType::I32)) == 4);
        assert(rust_type(s, f) == Some(gen_text(w)) && field_size(f) == Some(gen_bytes(w)));
    } else if s == "f64"@ {
        assert(gen_text(GenType::Prim(PrimType::F64)) == s);
        assert(gen_bytes(GenType::Prim(PrimType::F64)) == 8);
        assert(rust_type(s, f) == Some(gen_text(w)) && field_size(f) == Some(gen_bytes(w)));
    } else if s == "[u8; 16]"@ {
        reveal_strlit("[u8; 16]");
        reveal_strlit("[u8; ");
        reveal_strlit("]");
        assert(gen_text(GenType::Bytes(16)) =~= s);
        assert(gen_bytes(GenType::Bytes(16)) == 16);
        assert(rust_type(s, f) == Some(gen_text(w)) && field_size(f) == Some(gen_bytes(w)));
    } else if s == "[u8; 20]"@ {
        reveal_strlit("[u8; 20]");
        reveal_strlit("[u8; ");
        reveal_strlit("]");
        assert(gen_text(GenType::Bytes(20)) =~= s);
        assert(gen_bytes(GenType::Bytes(20)) == 20);
        assert(rust_type(s, f) == Some(gen_text(w)) && field_size(f) == Some(gen_bytes(w)));
    } else if s == "[u8; 32]"@ {
        reveal_strlit("[u8; 32]");
        reveal_strlit("[u8; ");
        reveal_strlit("]");
        assert(gen_text(GenType::Bytes(32)) =~= s);
        assert(gen_bytes(GenType::Bytes(32)) == 32);
        assert(rust_type(s, f) == Some(gen_text(w)) && field_size(f) == Some(gen_bytes(w)));
    } else if s == "[u8; 6]"@ {
        reveal_strlit("[u8; 6]");
        reveal_strlit("[u8; ");
        reveal_strlit("]");
        assert(gen_text(GenType::Bytes(6)) =~= s);
        assert(gen_bytes(GenType::Bytes(6)) == 6);
        reveal_strlit("U256");
        assert(rust_type(s, f) == Some(gen_text(w)) && field_size(f) == Some(gen_bytes(w)));
    } else if s == "U256"@ {
        reveal_strlit("[u8; 32]");
        reveal_strlit("[u8; ");
        reveal_strlit("]");
        assert(gen_text(GenType::Bytes(32)) =~= "[u8; 32]"@);
        assert(gen_bytes(GenType::Bytes(32)) == 32);
        assert(rust_type(s, f) == Some(gen_text(w)) && field_size(f) == Some(gen_bytes(w)));
    } else if s == "String"@ {
        assert(gen_bytes(GenType::Str(max_len_or(f, 32))) == 40);
        assert(rust_type(s, f) == Some(gen_text(w)) && field_size(f) == Some(gen_bytes(w)));
    } else if s == "Vec<[u8; 20]>"@ {
        reveal_strlit("[u8; 20]");
        reveal_strlit("[u8; ");
        reveal_strlit("]");
        let t = GenType::Vec(VecElem::Bytes(20), max_len_or(f, 4));
        assert(bytes_text(20) =~= "[u8; 20]"@);
        assert(gen_text(t) =~= "FixedVec<[u8; 20], "@ + decimal(max_len_or(f, 4)) + ">"@) by {
            reveal_strlit("FixedVec<[u8; 20], ");
            reveal_strlit("FixedVec<");
            reveal_strlit(", ");
        }
        assert(gen_bytes(t) == 8 + 20 * max_len_or(f, 4));
        assert(rust_type(s, f) == Some(gen_text(w)) && field_size(f) == Some(gen_bytes(w)));
    } else if s == "Vec<[u8; 32]>"@ {
        reveal_strlit("[u8; 32]");
        reveal_strlit("[u8; ");
        reveal_strlit("]");
        let t = GenType::Vec(VecElem::Bytes(32), max_len_or(f, 4));
        assert(bytes_text(32) =~= "[u8; 32]"@);
        assert(gen_text(t) =~= "FixedVec<[u8; 32], "@ + decimal(max_len_or(f, 4)) + ">"@) by {
            reveal_strlit("FixedVec<[u8; 32], ");
            reveal_strlit("FixedVec<");
            reveal_strlit(", ");
        }
        assert(gen_bytes(t) == 8 + 32 * max_len_or(f, 4));
        assert(rust_type(s, f) == Some(gen_text(w)) && field_size(f) == Some(gen_bytes(w)));
    } else if s == "Vec<u8>"@ {
        let t = GenType::Vec(VecElem::Byte, max_len_or(f, 16));
        assert(gen_text(t) =~= "FixedVec<u8, "@ + decimal(max_len_or(f, 16)) + ">"@) by {
            reveal_strlit("FixedVec<u8, ");
            reveal_strlit("FixedVec<");
            reveal_strlit(", ");
            reveal_strlit("u8");
        }
        assert(1 * max_len_or(f, 16) == max_len_or(f, 16)) by (nonlinear_arith);
        assert(gen_bytes(t) == 8 + max_len_or(f, 16));
        assert(rust_type(s, f) == Some(gen_text(w)) && field_size(f) == Some(gen_bytes(w)));
    } else if s == "[[u8; 32]; 256]"@ {
        reveal_strlit("[[u8; 32]; 256]");
        reveal_strlit("[u8; ");
        reveal_strlit("]");
        reveal_strlit("[");
        reveal_strlit("; ");
        let t = GenType::ByteArrays(32, 256);
        assert(gen_text(t) =~= s);
        assert(gen_bytes(t) == 8192);
        reveal_strlit("[[u8;");
        assert(s.subrange(0, 5) =~= "[[u8;"@);
        assert(s.subrange(s.len() - 1, s.len() as int) =~= "]"@);
        assert(rust_type(s, f) == Some(gen_text(w)) && field_size(f) == Some(gen_bytes(w)));
    } else if s == "[[u8; 32]; 6]"@ {
        reveal_strlit("[[u8; 32]; 6]");
        reveal_strlit("[u8; ");
        reveal_strlit("]");
        reveal_strlit("[");
        reveal_strlit("; ");
        let t = GenType::ByteArrays(32, 6);
        assert(gen_text(t) =~= s);
        assert(gen_bytes(t) == 192);
        reveal_strlit("[[u8;");
        assert(s.subrange(0, 5) =~= "[[u8;"@);
        assert(s.subrange(s.len() - 1, s.len() as int) =~= "]"@);
        assert(rust_type(s, f) == Some(gen_text(w)) && field_size(f) == Some(gen_bytes(w)));
    } else {
        reveal_strlit("[[u8; 20]; 6]");
        reveal_strlit("[u8; ");
        reveal_strlit("]");
        reveal_strlit("[");
        reveal_strlit("; ");
        assert(s == "[[u8; 20]; 6]"@);
        let t = GenType::ByteArrays(20, 6);
        assert(gen_text(t) =~= s);
        assert(gen_bytes(t) == 120);
        reveal_strlit("[[u8;");
        assert(s.subrange(0, 5) =~= "[[u8;"@);
        assert(s.subrange(s.len() - 1, s.len() as int) =~= "]"@);
        assert(rust_type(s, f) == Some(gen_text(w)) && field_size(f) == Some(gen_bytes(w)));
    }
}
/// Law: a contract vector type `Vec<e>` is generated as a `FixedVec` of the
/// same element type `e`, with the field's maximum length (16 by default
/// for bytes, 4 for byte arrays).
pub proof fn lemma_vec_keeps_element_type(f: FieldContract, e: Seq<char>)
    requires
        f.field_type@ == "Vec<"@ + e + ">"@,
        rust_type(f.field_type@, f) is Some,
    ensures
        rust_type(f.field_type@, f) == Some(
            "FixedVec<"@ + e + ", "@ + decimal(max_len_or(f, if e == "u8"@ { 16 } else { 4 }))
                + ">"@,
        ),
{
    let s = f.field_type@;
    reveal_strlit("Vec<");
    reveal_strlit(">");
    reveal_strlit("u8");
    reveal_strlit("u16");
    reveal_strlit("u32");
    reveal_strlit("u64");
    reveal_strlit("i32");
    reveal_strlit("f64");
    reveal_strlit("[u8; 16]");
    reveal_strlit("[u8; 20]");
    reveal_strlit("[u8; 32]");
    reveal_strlit("[u8; 6]");
    reveal_strlit("U256");
    reveal_strlit("String");
    reveal_strlit("Vec<[u8; 20]>");
    reveal_strlit("Vec<[u8; 32]>");
    reveal_strlit("Vec<u8>");
    reveal_strlit("[[u8;");
    reveal_strlit("FixedVec<");
    reveal_strlit(", ");
    reveal_strlit("FixedVec<[u8; 20], ");
    reveal_strlit("FixedVec<[u8; 32], ");
    reveal_strlit("FixedVec<u8, ");
    assert(s[0] == 'V');
    assert(e =~= s.subrange(4, s.len() - 1));
    if s == "Vec<[u8; 20]>"@ {
        assert(e =~= "[u8; 20]"@);
        assert("FixedVec<[u8; 20], "@ =~= "FixedVec<"@ + e + ", "@);
    } else if s == "Vec<[u8; 32]>"@ {
        assert(e =~= "[u8; 32]"@);
        assert("FixedVec<[u8; 32], "@ =~= "FixedVec<"@ + e + ", "@);
    } else if s == "Vec<u8>"@ {
        assert(e =~= "u8"@);
        assert("FixedVec<u8, "@ =~= "FixedVec<"@ + e + ", "@);
    } else {
        assert(s.subrange(0, 5)[0] == 'V');
        assert(!has_prefix(s, "[[u8;"@));
        assert(s != "u8"@ && s != "u16"@ && s != "u32"@ && s != "u64"@ && s != "i32"@ && s
            != "f64"@);
        assert(s != "[u8; 16]"@ && s != "[u8; 20]"@ && s != "[u8; 32]"@ && s != "[u8; 6]"@);
        assert(s != "U256"@ && s != "String"@);
    }
}

} // verus!
