//! Two-letter cell labels: `AA`, `AB`, …, `ZZ`.
use vstd::prelude::*;

verus! {

/// Number of distinct two-letter labels.
pub const LABEL_COUNT: usize = 676;

/// Appending a character to a `String` (`String::push` of the standard
/// library): the text afterwards is the text before followed by `ch`.
pub assume_specification[ String::push ](s: &mut String, ch: char)
    ensures
        final(s)@ == old(s)@.push(ch),
;

/// The `k`-th capital letter, counting from `A` at 0.
pub open spec fn letter(k: int) -> char {
    ('A' as int + k) as char
}

/// Whether `c` is one of `A`..=`Z`.
pub open spec fn is_letter(c: char) -> bool {
    'A' <= c <= 'Z'
}

/// The label of the cell with the given zero-based index. Indices of 676 and
/// above share labels with the indices they are congruent to.
pub open spec fn label_of(index: nat) -> Seq<char> {
    let reduced: int = index as int % 676;
    seq![letter(reduced / 26), letter(reduced % 26)]
}

/// The number below 676 that a two-letter label stands for, if `label` is one.
pub open spec fn label_code(label: Seq<char>) -> Option<int> {
    if label.len() == 2 && is_letter(label[0]) && is_letter(label[1]) {
        Some((label[0] as int - 'A' as int) * 26 + (label[1] as int - 'A' as int))
    } else {
        None
    }
}

/// Converts a zero-based index to a two-letter label from `AA` to `ZZ`:
/// 0 is `AA`, 1 is `AB`, 25 is `AZ`, 26 is `BA`, 675 is `ZZ`, and larger
/// indices wrap around.
pub fn index_to_label(idx: usize) -> (label: String)
    ensures
        label@ == label_of(idx as nat),
{
    let reduced: usize = idx % LABEL_COUNT;
    let first: u8 = (reduced / 26) as u8;
    let second: u8 = (reduced % 26) as u8;
    let mut label = String::new();
    label.push(('A' as u8 + first) as char);
    label.push(('A' as u8 + second) as char);
    assert(label@ =~= label_of(idx as nat));
    label
}

/// Labels repeat with period 676.
pub proof fn lemma_label_wraps(i: nat, k: nat)
    ensures
        label_of(i) == label_of(i + 676 * k),
{
    assert((i + 676 * k) as int % 676 == i as int % 676) by (nonlinear_arith);
}

/// Two different indices below 676 never share a label.
pub proof fn lemma_labels_distinct(i: nat, j: nat)
    requires
        i < 676,
        j < 676,
        i != j,
    ensures
        label_of(i) != label_of(j),
{
    lemma_label_code_of_label(i);
    lemma_label_code_of_label(j);
}

/// A label decodes to the index it was made from, reduced modulo 676.
pub proof fn lemma_label_code_of_label(i: nat)
    ensures
        label_code(label_of(i)) == Some(i as int % 676),
{
    let reduced: int = i as int % 676;
    let label = label_of(i);
    assert(label[0] == letter(reduced / 26));
    assert(label[1] == letter(reduced % 26));
}

/// A two-letter label is the label of its own code.
pub proof fn lemma_label_of_code(label: Seq<char>)
    requires
        label_code(label) is Some,
    ensures
        0 <= label_code(label).unwrap() < 676,
        label == label_of(label_code(label).unwrap() as nat),
{
    let code: int = label_code(label).unwrap();
    let first: int = label[0] as int - 'A' as int;
    let second: int = label[1] as int - 'A' as int;
    assert(code / 26 == first && code % 26 == second);
    assert(label =~= label_of(code as nat));
}

/// The labels of the indices below `count`.
pub open spec fn labels_below(count: nat) -> Set<Seq<char>> {
    Set::new(|label: Seq<char>| exists|i: nat| i < count && label == label_of(i))
}

/// The indices below 676 have exactly 676 different labels, and larger
/// indices add none.
pub proof fn lemma_label_set_size(count: nat)
    requires
        count >= 676,
    ensures
        labels_below(676).finite(),
        labels_below(676).len() == 676,
        labels_below(count) == labels_below(676),
{
    let codes: Set<int> = vstd::set_lib::set_int_range(0, 676);
    let encode = |c: int| label_of(c as nat);
    let labels = labels_below(676);
    vstd::set_lib::lemma_int_range(0, 676);
    assert forall|l: Seq<char>| labels.contains(l) implies codes.map(encode).contains(l) by {
        let i: nat = choose|i: nat| i < 676 && l == label_of(i);
        assert(codes.contains(i as int) && encode(i as int) == l);
    }
    assert forall|l: Seq<char>| codes.map(encode).contains(l) implies labels.contains(l) by {
        let c: int = choose|c: int| codes.contains(c) && l == encode(c);
        assert((c as nat) < 676 && l == label_of(c as nat));
    }
    assert(codes.map(encode) =~= labels);
    assert(vstd::relations::injective_on(encode, codes)) by {
        assert forall|a: int, b: int|
            codes.contains(a) && codes.contains(b) && #[trigger] encode(a) == #[trigger] encode(
                b,
            ) implies a == b by {
            if a != b {
                lemma_labels_distinct(a as nat, b as nat);
            }
        }
    }
    vstd::set_lib::lemma_map_size(codes, labels, encode);
    assert forall|l: Seq<char>| labels_below(count).contains(l) implies labels.contains(l) by {
        let i: nat = choose|i: nat| i < count && l == label_of(i);
        let reduced: nat = (i as int % 676) as nat;
        assert(reduced < 676 && l == label_of(reduced));
    }
    assert forall|l: Seq<char>| labels.contains(l) implies labels_below(count).contains(l) by {
        let i: nat = choose|i: nat| i < 676 && l == label_of(i);
        assert(i < count && l == label_of(i));
    }
    assert(labels_below(count) =~= labels);
}

} // verus!
