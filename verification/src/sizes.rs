//! How the sizes of files are written.

use crate::outside::{is_binary_size, unit_name, unit_text, written_as};
use crate::text::{decimal, digit, law_replacing_goes_on, replace, replaced};
use vstd::prelude::*;

verus! {

/// A rendering of a size with the names of megabytes and gigabytes in short.
pub open spec fn shortened(text: Seq<char>) -> Seq<char> {
    replaced(replaced(text, "MiB"@, "MB"@), "GiB"@, "GB"@)
}

/// Shortens the names of megabytes and gigabytes in the rendering of a size.
pub fn shorten_units(text: &str) -> (out: String)
    ensures
        out@ == shortened(text@),
{
    proof {
        reveal_strlit("MiB");
        reveal_strlit("GiB");
    }
    replace(replace(text, "MiB", "MB").as_str(), "GiB", "GB")
}

/// Whether `text` is how a file size of `bytes` is written.
pub open spec fn is_file_size(bytes: u64, text: Seq<char>) -> bool {
    exists|binary: Seq<char>| #[trigger]
        is_binary_size(bytes, binary) && text == shortened(binary)
}

/// Writes a file size for people to read.
pub fn format_file_size(bytes: u64) -> (text: String)
    ensures
        is_file_size(bytes, text@),
{
    let binary = bytesize::to_string(bytes, true);
    shorten_units(binary.as_str())
}

/// The name that stands for the unit number `exp` in a file size.
pub open spec fn file_unit_name(exp: nat) -> Seq<char> {
    if exp == 2 {
        "MB"@
    } else if exp == 3 {
        "GB"@
    } else {
        unit_name(exp)
    }
}

/// Law: a file size below 1024 bytes is written as a count of bytes, and a larger
/// one with one decimal and the name of its unit, where megabytes are `MB`,
/// gigabytes are `GB` and the other units keep their binary names.
pub proof fn law_file_size_form(bytes: u64, text: Seq<char>)
    ensures
        is_file_size(bytes, text) <==> if bytes < 1024 {
            text == decimal(bytes as nat) + " B"@
        } else {
            exists|exp: nat, tenths: nat| #[trigger]
                written_as(bytes, exp, tenths) && text == decimal(tenths / 10) + "."@ + decimal(
                    tenths % 10,
                ) + " "@ + file_unit_name(exp)
        },
{
    if bytes < 1024 {
        let binary = decimal(bytes as nat) + " B"@;
        shortening_keeps_bytes(bytes as nat);
        assert(is_binary_size(bytes, binary));
    } else {
        assert forall|exp: nat, tenths: nat| #[trigger]
            written_as(bytes, exp, tenths) implies shortened(unit_text(exp, tenths)) == decimal(
            tenths / 10,
        ) + "."@ + decimal(tenths % 10) + " "@ + file_unit_name(exp) by {
            shortening_renames_unit(exp, tenths);
        }
        if is_file_size(bytes, text) {
            let binary = choose|binary: Seq<char>| #[trigger]
                is_binary_size(bytes, binary) && text == shortened(binary);
            let (exp, tenths) = choose|exp: nat, tenths: nat| #[trigger]
                written_as(bytes, exp, tenths) && binary == unit_text(exp, tenths);
            assert(written_as(bytes, exp, tenths));
        }
        if exists|exp: nat, tenths: nat| #[trigger]
            written_as(bytes, exp, tenths) && text == decimal(tenths / 10) + "."@ + decimal(
                tenths % 10,
            ) + " "@ + file_unit_name(exp) {
            let (exp, tenths) = choose|exp: nat, tenths: nat| #[trigger]
                written_as(bytes, exp, tenths) && text == decimal(tenths / 10) + "."@ + decimal(
                    tenths % 10,
                ) + " "@ + file_unit_name(exp);
            assert(is_binary_size(bytes, unit_text(exp, tenths)));
        }
    }
}

/// The characters of a number in decimal notation are digits.
proof fn decimal_has_digits(n: nat)
    ensures
        forall|i: int| 0 <= i < decimal(n).len() ==> '0' <= #[trigger] decimal(n)[i] <= '9',
    decreases n,
{
    if n >= 10 {
        let high = decimal(n / 10);
        decimal_has_digits(n / 10);
        assert(decimal(n) == high.push(digit(n % 10)));
        assert forall|i: int| 0 <= i < decimal(n).len() implies '0' <= #[trigger] decimal(n)[i]
            <= '9' by {
            if i < high.len() {
                assert(decimal(n)[i] == high[i]);
            }
        }
    }
}

/// Replacing does not touch a prefix that lacks the first character of what is
/// replaced.
proof fn replacing_skips(prefix: Seq<char>, rest: Seq<char>, from: Seq<char>, to: Seq<char>)
    requires
        from.len() > 0,
        !prefix.contains(from[0]),
    ensures
        replaced(prefix + rest, from, to) == prefix + replaced(rest, from, to),
    decreases prefix.len(),
{
    let whole = prefix + rest;
    if prefix.len() == 0 {
        assert(whole =~= rest);
        assert(prefix + replaced(rest, from, to) =~= replaced(rest, from, to));
    } else {
        assert(prefix.contains(prefix[0]));
        if from.is_prefix_of(whole) {
            assert(whole.subrange(0, from.len() as int)[0] == prefix[0]);
        }
        let tail = prefix.skip(1);
        assert forall|c: char| tail.contains(c) implies prefix.contains(c) by {
            let i = choose|i: int| 0 <= i < tail.len() && tail[i] == c;
            assert(prefix[i + 1] == c);
        }
        assert(whole.skip(1) =~= tail + rest);
        replacing_skips(tail, rest, from, to);
        assert(seq![prefix[0]] + (tail + replaced(rest, from, to)) =~= prefix + replaced(
            rest,
            from,
            to,
        ));
    }
}

/// Replacing in a text that lacks the first character of what is replaced.
proof fn replacing_keeps(text: Seq<char>, from: Seq<char>, to: Seq<char>)
    requires
        from.len() > 0,
        !text.contains(from[0]),
    ensures
        replaced(text, from, to) == text,
{
    let none = Seq::<char>::empty();
    replacing_skips(text, none, from, to);
    assert(text + none =~= text);
    assert(replaced(none, from, to) =~= none);
}

/// Replacing a text as a whole.
proof fn replacing_whole(from: Seq<char>, to: Seq<char>)
    requires
        from.len() > 0,
    ensures
        replaced(from, from, to) == to,
{
    assert(from.subrange(0, from.len() as int) =~= from);
    assert(from.skip(from.len() as int) =~= Seq::empty());
    assert(replaced(Seq::empty(), from, to) =~= Seq::empty());
    assert(to + Seq::<char>::empty() =~= to);
}

proof fn shortening_keeps_bytes(n: nat)
    ensures
        shortened(decimal(n) + " B"@) == decimal(n) + " B"@,
{
    reveal_strlit("MiB");
    reveal_strlit("GiB");
    reveal_strlit(" B");
    decimal_has_digits(n);
    let text = decimal(n) + " B"@;
    assert forall|i: int| 0 <= i < text.len() implies text[i] != 'M' && text[i] != 'G' by {
        if i < decimal(n).len() {
            assert(text[i] == decimal(n)[i]);
        }
    }
    replacing_keeps(text, "MiB"@, "MB"@);
    replacing_keeps(text, "GiB"@, "GB"@);
}

proof fn shortening_renames_unit(exp: nat, tenths: nat)
    requires
        1 <= exp <= 6,
    ensures
        shortened(unit_text(exp, tenths)) == decimal(tenths / 10) + "."@ + decimal(tenths % 10)
            + " "@ + file_unit_name(exp),
{
    reveal_strlit("kiB");
    reveal_strlit("MiB");
    reveal_strlit("GiB");
    reveal_strlit("TiB");
    reveal_strlit("PiB");
    reveal_strlit("EiB");
    reveal_strlit("MB");
    reveal_strlit("GB");
    reveal_strlit(".");
    reveal_strlit(" ");
    let whole = decimal(tenths / 10);
    let tenth = decimal(tenths % 10);
    decimal_has_digits(tenths / 10);
    decimal_has_digits(tenths % 10);
    let number = whole + "."@ + tenth + " "@;
    assert forall|i: int| 0 <= i < number.len() implies number[i] != 'M' && number[i] != 'G' by {
        if i < whole.len() {
            assert(number[i] == whole[i]);
        } else if whole.len() < i < whole.len() + 1 + tenth.len() {
            assert(number[i] == tenth[i - whole.len() - 1]);
        }
    }
    replacing_skips(number, unit_name(exp), "MiB"@, "MB"@);
    if exp == 2 {
        replacing_whole("MiB"@, "MB"@);
        replacing_skips(number, "MB"@, "GiB"@, "GB"@);
        replacing_keeps("MB"@, "GiB"@, "GB"@);
    } else if exp == 3 {
        replacing_keeps("GiB"@, "MiB"@, "MB"@);
        replacing_skips(number, "GiB"@, "GiB"@, "GB"@);
        replacing_whole("GiB"@, "GB"@);
    } else {
        replacing_keeps(unit_name(exp), "MiB"@, "MB"@);
        replacing_skips(number, unit_name(exp), "GiB"@, "GB"@);
        replacing_keeps(unit_name(exp), "GiB"@, "GB"@);
    }
}

/// Law: these are the names of the units from one to six.
pub proof fn law_file_unit_names()
    ensures
        file_unit_name(1) == "kiB"@,
        file_unit_name(2) == "MB"@,
        file_unit_name(3) == "GB"@,
        file_unit_name(4) == "TiB"@,
        file_unit_name(5) == "PiB"@,
        file_unit_name(6) == "EiB"@,
{
}

/// Law: the first name of megabytes or gigabytes in a text is shortened, what stands
/// before it is kept, and what stands behind it is shortened in its turn. A text
/// without such a name is kept.
pub proof fn law_units_are_shortened(before: Seq<char>, behind: Seq<char>)
    requires
        forall|i: int| 0 <= i < before.len() ==> #[trigger] before[i] != 'M' && before[i] != 'G',
    ensures
        shortened(before) == before,
        shortened(before + "MiB"@ + behind) == before + "MB"@ + shortened(behind),
        shortened(before + "GiB"@ + behind) == before + "GB"@ + shortened(behind),
{
    reveal_strlit("MiB");
    reveal_strlit("GiB");
    reveal_strlit("MB");
    reveal_strlit("GB");
    let mega = replaced(behind, "MiB"@, "MB"@);
    replacing_keeps(before, "MiB"@, "MB"@);
    replacing_keeps(before, "GiB"@, "GB"@);

    assert(before + "MiB"@ + behind =~= before + ("MiB"@ + behind));
    replacing_skips(before, "MiB"@ + behind, "MiB"@, "MB"@);
    law_replacing_goes_on("MiB"@, "MB"@, 'M', behind);
    assert(before + ("MB"@ + mega) =~= (before + "MB"@) + mega);
    assert(!(before + "MB"@).contains('G'));
    replacing_skips(before + "MB"@, mega, "GiB"@, "GB"@);

    assert(before + "GiB"@ + behind =~= (before + "GiB"@) + behind);
    assert(!(before + "GiB"@).contains('M'));
    replacing_skips(before + "GiB"@, behind, "MiB"@, "MB"@);
    assert((before + "GiB"@) + mega =~= before + ("GiB"@ + mega));
    replacing_skips(before, "GiB"@ + mega, "GiB"@, "GB"@);
    law_replacing_goes_on("GiB"@, "GB"@, 'G', mega);
    assert(before + ("GB"@ + shortened(behind)) =~= before + "GB"@ + shortened(behind));
}

/// Law: a character with which no name of megabytes or gigabytes begins is kept, and
/// what stands behind it is shortened in its turn.
pub proof fn law_other_characters_are_kept(c: char, rest: Seq<char>)
    requires
        !"MiB"@.is_prefix_of(seq![c] + rest),
        !"GiB"@.is_prefix_of(seq![c] + rest),
    ensures
        shortened(seq![c] + rest) == seq![c] + shortened(rest),
{
    reveal_strlit("MiB");
    reveal_strlit("GiB");
    reveal_strlit("MB");
    reveal_strlit("GB");
    let text = seq![c] + rest;
    let mega = replaced(rest, "MiB"@, "MB"@);
    assert(text.skip(1) =~= rest);
    assert(replaced(text, "MiB"@, "MB"@) == seq![c] + mega);
    let next = seq![c] + mega;
    assert(next.skip(1) =~= mega);
    if "GiB"@.is_prefix_of(next) {
        let found = next.subrange(0, 3);
        assert(found == "GiB"@);
        assert(found[0] == c && found[1] == mega[0] && found[2] == mega[1]);
        first_is_kept(rest, 'i');
        first_is_kept(rest.skip(1), 'B');
        assert(text.subrange(0, 3) =~= "GiB"@);
    }
}

/// Where a text starts with `c` once megabytes are shortened, and `c` does not start
/// their name, it started with it before.
proof fn first_is_kept(text: Seq<char>, c: char)
    requires
        c != 'M',
        replaced(text, "MiB"@, "MB"@).len() > 0,
        replaced(text, "MiB"@, "MB"@)[0] == c,
    ensures
        text.len() > 0,
        text[0] == c,
        replaced(text, "MiB"@, "MB"@) == seq![c] + replaced(text.skip(1), "MiB"@, "MB"@),
{
    reveal_strlit("MiB");
    reveal_strlit("MB");
}

}
