//! Where a contract's interface comes from, and what stands in its way.

use vstd::prelude::*;

use crate::contract_source::cache_key;
use crate::contract_source::code_in;
use crate::contract_source::code_key;
use crate::contract_source::fetched_spec;
use crate::contract_source::kept_after;
use crate::contract_source::lookup_of;
use crate::contract_source::wasm_hash_of;
use crate::contract_source::SpecLookupView;
use crate::encoding::hex_bytes;
use crate::encoding::hex_complaint;
use crate::encoding::hex_value;
use crate::encoding::is_hex;
use crate::error::AppErrorView;
use crate::handlers::lookup_error;
use crate::interface::lemma_name_index;
use crate::interface::name_index;
use crate::json::JsonView;
use crate::spec::enum_names;
use crate::spec::function_names;
use crate::spec::gathered;
use crate::spec::section_from;
use crate::spec::struct_names;
use crate::spec::union_case_names;
use crate::spec::union_names;
use crate::spec::wasm_entries;
use crate::spec::SpecView;
use crate::text::has_part;
use crate::text::is_white_space;
use crate::text::lowercase;
use crate::text::trimmed;
use crate::xdr_tx::ledger_entry_held;
use crate::xdr_tx::ledger_entry_of_base64;
use crate::xdr_tx::lookup_key_base64;
use crate::xdr_tx::LedgerEntryView;
use crate::xdr_tx::LookupKeyView;
use crate::xdr_types::entries_of;
use crate::xdr_types::wasm_parts_of;
use crate::xdr_types::WasmPartView;

verus! {

/// Whether a part of a module is a section that holds an interface.
pub open spec fn holds_interface(part: WasmPartView) -> bool {
    part matches WasmPartView::Custom(name, _) && name == "contractspecv0"@
}

proof fn lemma_section(parts: Seq<WasmPartView>, i: int, k: int)
    requires
        0 <= i <= k <= parts.len(),
        forall|j: int|
            i <= j < k ==> !holds_interface(#[trigger] parts[j]) && !(parts[j] is Malformed),
    ensures
        section_from(parts, i) == section_from(parts, k),
    decreases k - i,
{
    if i < k {
        assert(!holds_interface(parts[i]) && !(parts[i] is Malformed));
        lemma_section(parts, i + 1, k);
    }
}

/// The interface of a module is what its first section of that name holds, and a
/// module that is malformed before it, or has none, has no interface.
pub proof fn law_first_section_counts(wasm: Seq<u8>, i: int)
    requires
        0 <= i <= wasm_parts_of(wasm).len(),
        forall|j: int|
            0 <= j < i ==> !holds_interface(#[trigger] wasm_parts_of(wasm)[j]) && !(wasm_parts_of(
                wasm,
            )[j] is Malformed),
    ensures
        i == wasm_parts_of(wasm).len() ==> wasm_entries(wasm) is Err,
        i < wasm_parts_of(wasm).len() ==> match wasm_parts_of(wasm)[i] {
            WasmPartView::Malformed => wasm_entries(wasm) is Err,
            WasmPartView::Custom(name, data) => name == "contractspecv0"@ ==> match entries_of(
                data,
            ) {
                Ok(entries) => wasm_entries(wasm) == Ok::<
                    Seq<crate::interface::SpecEntryView>,
                    Seq<char>,
                >(entries),
                Err(_) => wasm_entries(wasm) is Err,
            },
            WasmPartView::Other => true,
        },
{
    lemma_section(wasm_parts_of(wasm), 0, i);
}

/// Looking a name up gives the first item of that name, and nothing just where no item
/// has it.
pub proof fn law_lookups_go_by_the_name(spec: SpecView, name: Seq<char>)
    ensures
        match spec.find_function(name) {
            Some(f) => exists|i: int|
                0 <= i < spec.functions.len() && #[trigger] spec.functions[i] == f && f.name == name
                    && forall|j: int| 0 <= j < i ==> (#[trigger] spec.functions[j]).name != name,
            None => forall|i: int|
                0 <= i < spec.functions.len() ==> (#[trigger] spec.functions[i]).name != name,
        },
        match spec.find_struct(name) {
            Some(s) => s.name == name && spec.structs.contains(s),
            None => forall|i: int|
                0 <= i < spec.structs.len() ==> (#[trigger] spec.structs[i]).name != name,
        },
        match spec.find_union(name) {
            Some(u) => u.name == name && spec.unions.contains(u),
            None => forall|i: int|
                0 <= i < spec.unions.len() ==> (#[trigger] spec.unions[i]).name != name,
        },
        match spec.find_enum(name) {
            Some(e) => e.name == name && spec.enums.contains(e),
            None => forall|i: int|
                0 <= i < spec.enums.len() ==> (#[trigger] spec.enums[i]).name != name,
        },
        match spec.find_error_enum(name) {
            Some(e) => e.name == name && spec.error_enums.contains(e),
            None => forall|i: int|
                0 <= i < spec.error_enums.len() ==> (#[trigger] spec.error_enums[i]).name != name,
        },
{
    let f = function_names(spec.functions);
    lemma_name_index(f, name, 0);
    assert(forall|i: int| 0 <= i < f.len() ==> #[trigger] f[i] == spec.functions[i].name);
    assert forall|i: int|
        0 <= i < spec.functions.len() && i < name_index(f, name) implies (
    #[trigger] spec.functions[i]).name != name by {
        assert(f[i] == spec.functions[i].name);
    }
    let s = struct_names(spec.structs);
    lemma_name_index(s, name, 0);
    assert forall|i: int| 0 <= i < s.len() implies (#[trigger] spec.structs[i]).name == s[i] by {}
    let u = union_names(spec.unions);
    lemma_name_index(u, name, 0);
    assert forall|i: int| 0 <= i < u.len() implies (#[trigger] spec.unions[i]).name == u[i] by {}
    let e = enum_names(spec.enums);
    lemma_name_index(e, name, 0);
    assert forall|i: int| 0 <= i < e.len() implies (#[trigger] spec.enums[i]).name == e[i] by {}
    let r = enum_names(spec.error_enums);
    lemma_name_index(r, name, 0);
    assert forall|i: int|
        0 <= i < r.len() implies (#[trigger] spec.error_enums[i]).name == r[i] by {}
}

/// A case is looked up by its name in the union of the other name: the first of its
/// name counts.
pub proof fn law_cases_go_by_their_name(spec: SpecView, union_name: Seq<char>, name: Seq<char>)
    ensures
        match (spec.find_union(union_name), spec.find_union_case(union_name, name)) {
            (Some(u), Some(c)) => exists|i: int|
                0 <= i < u.cases.len() && #[trigger] u.cases[i] == c && c.name == name
                    && forall|j: int| 0 <= j < i ==> (#[trigger] u.cases[j]).name != name,
            (Some(u), None) => forall|i: int|
                0 <= i < u.cases.len() ==> (#[trigger] u.cases[i]).name != name,
            (None, found) => found is None,
        },
{
    if let Some(u) = spec.find_union(union_name) {
        let names = union_case_names(u.cases);
        lemma_name_index(names, name, 0);
        assert forall|i: int|
            0 <= i < u.cases.len() && i < name_index(names, name) implies (
        #[trigger] u.cases[i]).name != name by {
            assert(names[i] == u.cases[i].name);
        }
        let k = name_index(names, name);
        if k < u.cases.len() {
            assert(names[k] == u.cases[k].name);
            assert(u.cases[k].name == name);
        }
    }
}

/// Whether a text is white space throughout.
pub open spec fn is_blank(s: Seq<char>) -> bool {
    forall|i: int| 0 <= i < s.len() ==> is_white_space(#[trigger] s[i])
}

/// White space at the two ends of a text is cut off, and nothing else.
pub proof fn law_white_space_is_cut_off(left: Seq<char>, core: Seq<char>, right: Seq<char>)
    requires
        is_blank(left),
        is_blank(right),
        core.len() > 0,
        !is_white_space(core[0]),
        !is_white_space(core.last()),
    ensures
        trimmed(left + core + right) == core,
    decreases left.len() + right.len(),
{
    let s = left + core + right;
    if left.len() > 0 {
        assert(s[0] == left[0]);
        assert(s.skip(1) =~= left.skip(1) + core + right);
        assert forall|i: int| 0 <= i < left.len() - 1 implies is_white_space(
            #[trigger] left.skip(1)[i],
        ) by {
            assert(left.skip(1)[i] == left[i + 1]);
        }
        law_white_space_is_cut_off(left.skip(1), core, right);
    } else if right.len() > 0 {
        assert(s[0] == core[0]);
        assert(s.last() == right.last());
        assert(s.drop_last() =~= left + core + right.drop_last());
        assert forall|i: int| 0 <= i < right.len() - 1 implies is_white_space(
            #[trigger] right.drop_last()[i],
        ) by {
            assert(right.drop_last()[i] == right[i]);
        }
        law_white_space_is_cut_off(left, core, right.drop_last());
    } else {
        assert(s =~= core);
    }
}

/// In lower case an ASCII text has each of its letters in lower case and every other
/// character as it is.
pub proof fn law_lower_case(s: Seq<char>, i: int)
    requires
        vstd::utf8::is_ascii_chars(s),
        0 <= i < s.len(),
    ensures
        lowercase(s).len() == s.len(),
        'A' <= s[i] <= 'Z' ==> lowercase(s)[i] as int == s[i] as int + ('a' as int - 'A' as int),
        !('A' <= s[i] <= 'Z') ==> lowercase(s)[i] == s[i],
{
}

/// The hash of a module is the 32 bytes that its 64 hexadecimal digits stand for,
/// whatever white space is around them. The code is asked for by just this hash.
pub proof fn law_hash_is_its_digits(left: Seq<char>, digits: Seq<char>, right: Seq<char>)
    requires
        is_blank(left),
        is_blank(right),
        is_hex(digits),
        digits.len() == 64,
    ensures
        wasm_hash_of(left + digits + right) == Ok::<Seq<u8>, Seq<char>>(hex_bytes(digits)),
        code_key(left + digits + right) == Ok::<Seq<char>, Seq<char>>(
            lookup_key_base64(LookupKeyView::ContractCode(hex_bytes(digits))),
        ),
{
    assert(hex_value(digits[0]) is Some && hex_value(digits.last()) is Some);
    law_white_space_is_cut_off(left, digits, right);
}

/// A text whose digits, white space aside, are not 64 or not hexadecimal is no hash.
pub proof fn law_other_texts_are_no_hashes(left: Seq<char>, core: Seq<char>, right: Seq<char>)
    requires
        is_blank(left),
        is_blank(right),
        core.len() > 0,
        !is_white_space(core[0]),
        !is_white_space(core.last()),
        !is_hex(core) || core.len() != 64,
    ensures
        wasm_hash_of(left + core + right) is Err,
        code_key(left + core + right) is Err,
{
    law_white_space_is_cut_off(left, core, right);
}

/// The code is that of the first entry of the reply; a reply whose first entry is no
/// code has none.
pub proof fn law_code_is_that_of_the_entry(resp: JsonView, hash: Seq<char>)
    ensures
        match resp.at_key("entries"@) {
            Some(JsonView::Array(entries)) => if entries.len() == 0 {
                code_in(resp, hash) is Err
            } else {
                match entries[0].at_key("xdr"@) {
                    Some(JsonView::String(xdr)) => match ledger_entry_of_base64(xdr) {
                        Some(d) => match ledger_entry_held(d) {
                            LedgerEntryView::ContractCode(code) => code_in(resp, hash) == Ok::<
                                Seq<u8>,
                                Seq<char>,
                            >(code),
                            _ => code_in(resp, hash) is Err,
                        },
                        None => code_in(resp, hash) is Err,
                    },
                    _ => code_in(resp, hash) is Err,
                }
            },
            _ => code_in(resp, hash) is Err,
        },
{
}

/// A fetched interface is the one that all the entries of the code make, and it is kept
/// under the key of its hash; a failure changes nothing.
pub proof fn law_fetched_interface_is_that_of_the_code(
    kept: Option<SpecView>,
    resp: JsonView,
    key: Seq<char>,
)
    ensures
        match code_in(resp, key) {
            Ok(code) => match wasm_entries(code) {
                Ok(entries) => {
                    let spec = gathered(entries, entries.len() as int);
                    &&& fetched_spec(resp, key) == Ok::<SpecView, Seq<char>>(spec)
                    &&& kept_after(kept, resp, key) == Some(spec)
                },
                Err(e) => {
                    &&& fetched_spec(resp, key) == Err::<SpecView, Seq<char>>(e)
                    &&& kept_after(kept, resp, key) == kept
                },
            },
            Err(e) => {
                &&& fetched_spec(resp, key) == Err::<SpecView, Seq<char>>(e)
                &&& kept_after(kept, resp, key) == kept
            },
        },
{
}

/// An interface that is kept is not fetched. One that is not is fetched by the hash
/// that the key denotes, and a key that denotes none is refused.
pub proof fn law_kept_interface_is_used(kept: Option<SpecView>, key: Seq<char>)
    ensures
        match (wasm_hash_of(key), kept) {
            (Err(e), _) => lookup_of(kept, key) == Err::<SpecLookupView, Seq<char>>(e),
            (Ok(_), Some(spec)) => lookup_of(kept, key) == Ok::<SpecLookupView, Seq<char>>(
                SpecLookupView::Kept(spec),
            ),
            (Ok(hash), None) => lookup_of(kept, key) == Ok::<SpecLookupView, Seq<char>>(
                (SpecLookupView::Fetch {
                    key,
                    ledger_key: lookup_key_base64(LookupKeyView::ContractCode(hash)),
                }),
            ),
        },
{
}

proof fn lemma_part_at(s: Seq<char>, part: Seq<char>, i: int)
    requires
        0 <= i <= s.len() - part.len(),
        forall|k: int| 0 <= k < part.len() ==> s[i + k] == #[trigger] part[k],
    ensures
        has_part(s, part),
{
    assert(s.subrange(i, i + part.len()) =~= part);
}

/// A text with a character that another text has not is no part of it.
proof fn lemma_no_part(s: Seq<char>, part: Seq<char>, k: int)
    requires
        0 <= k < part.len(),
        forall|i: int| 0 <= i < s.len() ==> #[trigger] s[i] != part[k],
    ensures
        !has_part(s, part),
{
    if has_part(s, part) {
        let i = choose|i: int|
            0 <= i <= s.len() - part.len() && #[trigger] s.subrange(i, i + part.len()) == part;
        assert(s.subrange(i, i + part.len())[k] == s[i + k]);
    }
}

/// A hash that is none, by its digits or by their number, is a mistake in the request.
pub proof fn law_bad_hash_is_a_bad_request(hash: Seq<char>)
    ensures
        wasm_hash_of(hash) matches Err(e) ==> lookup_error(e) == AppErrorView::BadRequest(e),
{
    let digits = trimmed(hash);
    if !is_hex(digits) {
        reveal_strlit("wasm hash must be hex-encoded: ");
        reveal_strlit("must be hex-encoded");
        let e = "wasm hash must be hex-encoded: "@ + hex_complaint(digits);
        assert("wasm hash must be hex-encoded: "@.len() == 31);
        assert("must be hex-encoded"@.len() == 19);
        lemma_part_at(e, "must be hex-encoded"@, 10);
    } else if hex_bytes(digits).len() != 32 {
        reveal_strlit("wasm hash must be exactly 32 bytes (64 hex characters)");
        reveal_strlit("must be exactly 32 bytes");
        let e = "wasm hash must be exactly 32 bytes (64 hex characters)"@;
        assert(e.len() == 54);
        assert("must be exactly 32 bytes"@.len() == 24);
        lemma_part_at(e, "must be exactly 32 bytes"@, 10);
    }
}

/// Whether a text has the letter `x` nowhere.
pub open spec fn has_no_x(s: Seq<char>) -> bool {
    forall|i: int| 0 <= i < s.len() ==> #[trigger] s[i] != 'x'
}

proof fn lemma_no_hash_complaint(s: Seq<char>)
    requires
        has_no_x(s),
    ensures
        !has_part(s, "must be exactly 32 bytes"@),
        !has_part(s, "must be hex-encoded"@),
{
    reveal_strlit("must be exactly 32 bytes");
    reveal_strlit("must be hex-encoded");
    assert("must be exactly 32 bytes"@.len() == 24 && "must be exactly 32 bytes"@[9] == 'x');
    assert("must be hex-encoded"@.len() == 19 && "must be hex-encoded"@[10] == 'x');
    lemma_no_part(s, "must be exactly 32 bytes"@, 9);
    lemma_no_part(s, "must be hex-encoded"@, 10);
}

/// A hash that the network has no code for is answered with that it was not found.
pub proof fn law_unknown_hash_is_not_found(resp: JsonView, hash: Seq<char>)
    requires
        is_hex(hash),
        match resp.at_key("entries"@) {
            Some(JsonView::Array(entries)) => entries.len() == 0,
            _ => true,
        },
    ensures
        code_in(resp, hash) matches Err(e) && lookup_error(e) == AppErrorView::NotFound(e),
{
    reveal_strlit("no contract WASM found on-chain for hash `");
    reveal_strlit("` (it may not be uploaded on this network, or the hash is wrong)");
    reveal_strlit("no contract WASM found");
    let head = "no contract WASM found on-chain for hash `"@;
    let tail = "` (it may not be uploaded on this network, or the hash is wrong)"@;
    let e = head + hash + tail;
    assert(head.len() == 42 && "no contract WASM found"@.len() == 22);
    assert(tail.len() == 64);
    assert(has_no_x(head));
    assert(has_no_x(tail));
    assert forall|i: int| 0 <= i < e.len() implies #[trigger] e[i] != 'x' by {
        if 42 <= i < 42 + hash.len() {
            assert(hex_value(hash[i - 42]) is Some);
            assert(e[i] == hash[i - 42]);
        } else if i < 42 {
            assert(e[i] == head[i]);
        } else {
            assert(e[i] == tail[i - 42 - hash.len()]);
        }
    }
    lemma_no_hash_complaint(e);
    lemma_part_at(e, "no contract WASM found"@, 0);
}

/// A module without an interface is a mistake in the request.
pub proof fn law_module_without_interface_is_a_bad_request(wasm: Seq<u8>)
    requires
        forall|i: int|
            0 <= i < wasm_parts_of(wasm).len() ==> !holds_interface(
                #[trigger] wasm_parts_of(wasm)[i],
            ) && !(wasm_parts_of(wasm)[i] is Malformed),
    ensures
        wasm_entries(wasm) matches Err(e) && lookup_error(e) == AppErrorView::BadRequest(e),
{
    let parts = wasm_parts_of(wasm);
    lemma_section(parts, 0, parts.len() as int);
    reveal_strlit(
        "WASM module has no `contractspecv0` custom section; it may not be a Soroban contract, or was built without contract metadata",
    );
    reveal_strlit("no `contractspecv0`");
    reveal_strlit("no contract WASM found");
    let e =
        "WASM module has no `contractspecv0` custom section; it may not be a Soroban contract, or was built without contract metadata"@;
    assert("no `contractspecv0`"@.len() == 19);
    assert("no contract WASM found"@.len() == 22 && "no contract WASM found"@[12] == 'W');
    lemma_part_at(e, "no `contractspecv0`"@, 16);
    assert(forall|i: int| 1 <= i < e.len() ==> #[trigger] e[i] != 'W');
    if has_part(e, "no contract WASM found"@) {
        let i = choose|i: int|
            0 <= i <= e.len() - 22 && #[trigger] e.subrange(i, i + 22) == "no contract WASM found"@;
        assert(e.subrange(i, i + 22)[12] == e[i + 12]);
    }
}

/// A reply from which no code can be decoded is a failure of the network's.
pub proof fn law_undecodable_reply_is_upstream(
    resp: JsonView,
    hash: Seq<char>,
    entries: Seq<JsonView>,
    xdr: Seq<char>,
)
    requires
        resp.at_key("entries"@) == Some(JsonView::Array(entries)),
        entries.len() > 0,
        entries[0].at_key("xdr"@) == Some(JsonView::String(xdr)),
        ledger_entry_of_base64(xdr) is None,
    ensures
        code_in(resp, hash) matches Err(e) && lookup_error(e) == AppErrorView::Upstream(e),
{
    reveal_strlit("failed decoding ContractCode ledger entry");
    reveal_strlit("no contract WASM found");
    reveal_strlit("no `contractspecv0`");
    let e = "failed decoding ContractCode ledger entry"@;
    assert(e.len() == 41);
    assert("no contract WASM found"@.len() == 22 && "no contract WASM found"@[12] == 'W');
    assert("no `contractspecv0`"@.len() == 19 && "no `contractspecv0`"@[3] == '`');
    lemma_no_hash_complaint(e);
    lemma_no_part(e, "no contract WASM found"@, 12);
    lemma_no_part(e, "no `contractspecv0`"@, 3);
}

/// A hexadecimal digit counts from 0 to 15, the same in upper and lower case, and no
/// other character is one.
pub proof fn law_hexadecimal_digits(c: char)
    ensures
        '0' <= c <= '9' ==> hex_value(c) == Some(c as int - '0' as int),
        'a' <= c <= 'f' ==> hex_value(c) == Some(c as int - 'a' as int + 10),
        'A' <= c <= 'F' ==> hex_value(c) == Some(c as int - 'A' as int + 10),
        !('0' <= c <= '9' || 'a' <= c <= 'f' || 'A' <= c <= 'F') ==> hex_value(c) is None,
{
}

/// Each two hexadecimal digits stand for one byte, the first for the higher half of it.
pub proof fn law_hexadecimal_bytes(digits: Seq<char>, i: int)
    requires
        is_hex(digits),
        0 <= 2 * i < digits.len(),
    ensures
        digits.len() == 2 * hex_bytes(digits).len(),
        hex_value(digits[2 * i]) matches Some(high) && hex_value(digits[2 * i + 1]) matches Some(
            low,
        ) && hex_bytes(digits)[i] == 16 * high + low,
{
    assert(hex_value(digits[2 * i]) is Some);
    assert(hex_value(digits[2 * i + 1]) is Some);
}

/// The name that an interface is kept under is a spelling of its hash, so that hashes
/// that differ are kept under names that differ.
pub proof fn law_kept_name_denotes_the_hash(
    left: Seq<char>,
    digits: Seq<char>,
    right: Seq<char>,
)
    requires
        is_blank(left),
        is_blank(right),
        is_hex(digits),
        digits.len() == 64,
    ensures
        wasm_hash_of(cache_key(left + digits + right)) == Ok::<Seq<u8>, Seq<char>>(
            hex_bytes(digits),
        ),
{
    assert(hex_value(digits[0]) is Some && hex_value(digits.last()) is Some);
    law_white_space_is_cut_off(left, digits, right);
    assert forall|i: int| 0 <= i < digits.len() implies 0 <= #[trigger] digits[i] as nat && (
    digits[i] as nat) < 128 by {
        assert(hex_value(digits[i]) is Some);
    }
    let low = lowercase(digits);
    assert forall|i: int| 0 <= i < low.len() implies hex_value(#[trigger] low[i]) == hex_value(
        digits[i],
    ) by {
        assert(hex_value(digits[i]) is Some);
    }
    assert forall|i: int| 0 <= i < low.len() implies hex_value(#[trigger] low[i]) is Some by {
        assert(hex_value(digits[i]) is Some);
    }
    assert(hex_bytes(low) =~= hex_bytes(digits)) by {
        assert forall|i: int| 0 <= i < 32 implies hex_bytes(low)[i] == hex_bytes(digits)[i] by {
            assert(hex_value(low[2 * i]) == hex_value(digits[2 * i]));
            assert(hex_value(low[2 * i + 1]) == hex_value(digits[2 * i + 1]));
        }
    }
    assert(hex_value(low[0]) is Some && hex_value(low.last()) is Some);
    assert(Seq::<char>::empty() + low + Seq::<char>::empty() =~= low);
    law_hash_is_its_digits(Seq::empty(), low, Seq::empty());
}

} // verus!
