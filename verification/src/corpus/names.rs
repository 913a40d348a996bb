//! Names of cases.
//!
//! A case is described by its name alone, so no two cases of a corpus may share
//! one. The proof looks the place of a case up by its name: names in different
//! places are different.

use vstd::prelude::*;
use crate::corpus::css::{at_rule_list, css_list, important_list, rule_list, rule_scale_list};
use crate::corpus::entity::{entity_list, expansion_list, external_list};
use crate::corpus::numeric::{
    buffer_list, coordinate_list, dimension_list, fill_list, long_path, numeric_list, opacity_list,
    path_list, viewbox_list,
};
use crate::corpus::size_limits::size_limit_list;
use crate::corpus::structural::{
    document_list, encoding_list, portion, structural_list, truncation_list,
};
use crate::corpus::svgz::{
    body_cut, body_cut_if, corruption_list, flipped, header_cut, header_cuts, only_if, svgz_list,
    svgz_truncation_list, tail_list, whole_list, MembersView,
};
use crate::corpus::valid::valid_list;
use crate::corpus::xml_scale::xml_scale_list;
use crate::corpus::{all_list, hostile_bytes, CaseView};
use crate::numbers::{dec, digit};
use crate::suites::adversarial::{
    a_name_selects_one_case, chosen, distinct_names, AGREEMENT_CASE,
};

verus! {

// ---------------------------------------------------------------
//                     From names to places
// ---------------------------------------------------------------

spec fn valid_place(name: Seq<char>) -> int {
    if name.len() == 18 {
        0
    } else if name.len() == 17 && name[6] == 'o' {
        1
    } else if name.len() == 22 {
        2
    } else if name.len() == 21 {
        3
    } else if name.len() == 15 {
        4
    } else if name.len() == 13 {
        5
    } else if name.len() == 10 {
        6
    } else if name.len() == 32 {
        7
    } else if name.len() == 17 && name[6] == 'w' {
        8
    } else if name.len() == 17 && name[6] == 't' {
        9
    } else if name.len() == 27 {
        10
    } else if name.len() == 16 {
        11
    } else {
        -1
    }
}

spec fn truncated_place(name: Seq<char>) -> int {
    if name.len() == 15 && name[11] == '1' {
        37
    } else if name.len() == 15 && name[10] == '0' && name[11] == '5' {
        38
    } else if name.len() == 15 && name[10] == '1' && name[11] == '0' {
        39
    } else if name.len() == 15 && name[11] == '7' {
        40
    } else if name.len() == 15 && name[10] == '2' {
        41
    } else if name.len() == 15 && name[10] == '3' {
        42
    } else if name.len() == 15 && name[10] == '5' {
        43
    } else if name.len() == 15 && name[10] == '6' {
        44
    } else if name.len() == 15 && name[10] == '7' {
        45
    } else if name.len() == 15 && name[10] == '9' && name[11] == '0' {
        46
    } else if name.len() == 15 && name[10] == '9' && name[11] == '5' {
        47
    } else if name.len() == 15 && name[11] == '9' {
        48
    } else if name.len() == 16 && name[15] == '1' {
        49
    } else if name.len() == 16 && name[15] == '2' {
        50
    } else if name.len() == 16 && name[15] == '3' {
        51
    } else if name.len() == 16 && name[15] == '6' {
        52
    } else if name.len() == 16 && name[15] == '7' {
        53
    } else {
        -1
    }
}

spec fn css_place(name: Seq<char>) -> int {
    if name.len() == 15 && name[4] == 'b' {
        69
    } else if name.len() == 20 && name[4] == 'e' {
        70
    } else if name.len() == 15 && name[4] == 'e' {
        71
    } else if name.len() == 16 && name[4] == 'o' {
        72
    } else if name.len() == 24 && name[23] == 'e' {
        73
    } else if name.len() == 25 && name[4] == 'u' {
        74
    } else if name.len() == 15 && name[4] == 'o' {
        75
    } else if name.len() == 21 && name[4] == 'o' {
        76
    } else if name.len() == 24 && name[23] == 't' {
        77
    } else if name.len() == 23 && name[4] == 'u' {
        78
    } else if name.len() == 23 && name[4] == 'b' {
        79
    } else if name.len() == 17 && name[4] == 'e' {
        80
    } else if name.len() == 22 && name[21] == 'h' {
        81
    } else if name.len() == 23 && name[4] == 'e' {
        82
    } else if name.len() == 19 && name[14] == '-' {
        83
    } else if name.len() == 18 {
        84
    } else if name.len() == 17 && name[4] == 'n' {
        85
    } else if name.len() == 16 && name[4] == 'a' {
        86
    } else if name.len() == 16 && name[4] == 'n' {
        87
    } else if name.len() == 20 && name[4] == 'u' {
        88
    } else if name.len() == 19 && name[14] == 'l' {
        89
    } else if name.len() == 26 && name[21] == 'l' {
        90
    } else if name.len() == 19 && name[14] == 'u' {
        91
    } else if name.len() == 26 && name[21] == 'u' {
        92
    } else if name.len() == 19 && name[14] == 'm' {
        93
    } else if name.len() == 26 && name[21] == 'm' {
        94
    } else if name.len() == 20 && name[4] == 'i' {
        95
    } else if name.len() == 27 {
        96
    } else if name.len() == 20 && name[12] == 'n' {
        97
    } else if name.len() == 22 && name[21] == '5' {
        98
    } else if name.len() == 22 && name[21] == '6' {
        99
    } else if name.len() == 22 && name[21] == '7' {
        100
    } else if name.len() == 23 && name[4] == 'a' {
        101
    } else if name.len() == 24 && name[23] == '5' {
        102
    } else if name.len() == 24 && name[23] == '6' {
        103
    } else if name.len() == 24 && name[23] == '7' {
        104
    } else if name.len() == 25 && name[4] == 'a' {
        105
    } else if name.len() == 20 && name[12] == 'u' {
        106
    } else if name.len() == 22 && name[21] == 's' {
        107
    } else if name.len() == 23 && name[4] == '2' {
        108
    } else if name.len() == 20 && name[4] == '5' {
        109
    } else if name.len() == 21 && name[4] == '2' {
        110
    } else if name.len() == 12 {
        111
    } else if name.len() == 26 && name[21] == 'c' {
        112
    } else {
        -1
    }
}

spec fn viewbox_place(name: Seq<char>) -> int {
    if name.len() == 12 && name[8] == 'z' {
        113
    } else if name.len() == 18 {
        114
    } else if name.len() == 19 && name[8] == 'z' {
        115
    } else if name.len() == 21 {
        116
    } else if name.len() == 23 && name[8] == 'n' {
        117
    } else if name.len() == 12 && name[8] == 'h' {
        118
    } else if name.len() == 12 && name[8] == 't' {
        119
    } else if name.len() == 11 && name[8] == 'n' {
        120
    } else if name.len() == 11 && name[8] == 'i' {
        121
    } else if name.len() == 22 {
        122
    } else if name.len() == 23 && name[8] == 't' {
        123
    } else if name.len() == 19 && name[8] == 'n' {
        124
    } else if name.len() == 13 {
        125
    } else if name.len() == 23 && name[8] == 'c' {
        126
    } else if name.len() == 24 {
        127
    } else if name.len() == 36 {
        141
    } else {
        -1
    }
}

spec fn dimensions_place(name: Seq<char>) -> int {
    if name.len() == 29 {
        128
    } else if name.len() == 30 && name[12] == 'm' {
        129
    } else if name.len() == 30 && name[12] == 't' {
        130
    } else if name.len() == 30 && name[12] == 'x' {
        131
    } else if name.len() == 26 && name[11] == 'z' {
        132
    } else if name.len() == 30 && name[12] == 'e' {
        133
    } else if name.len() == 26 && name[11] == 'h' {
        134
    } else if name.len() == 25 {
        135
    } else if name.len() == 32 && name[11] == 'o' {
        136
    } else if name.len() == 33 {
        137
    } else if name.len() == 27 {
        138
    } else if name.len() == 32 && name[11] == 'w' {
        139
    } else if name.len() == 39 {
        140
    } else {
        -1
    }
}

spec fn coords_place(name: Seq<char>) -> int {
    if name.len() == 17 && name[7] == 'n' {
        142
    } else if name.len() == 17 && name[7] == 'i' {
        143
    } else if name.len() == 20 {
        144
    } else if name.len() == 15 {
        145
    } else if name.len() == 18 && name[7] == 'm' {
        146
    } else if name.len() == 19 {
        147
    } else if name.len() == 18 && name[7] == 'h' {
        148
    } else {
        -1
    }
}

spec fn path_place(name: Seq<char>) -> int {
    if name.len() == 17 && name[5] == '5' {
        149
    } else if name.len() == 12 {
        150
    } else if name.len() == 22 {
        151
    } else if name.len() == 16 && name[5] == 'n' {
        152
    } else if name.len() == 10 {
        153
    } else if name.len() == 16 && name[5] == 'o' {
        154
    } else if name.len() == 17 && name[5] == 'h' {
        155
    } else {
        -1
    }
}

spec fn fill_place(name: Seq<char>) -> int {
    if name.len() == 10 && name[5] == 'n' {
        156
    } else if name.len() == 9 && name[8] == '3' {
        157
    } else if name.len() == 9 && name[8] == '6' {
        158
    } else if name.len() == 20 {
        159
    } else if name.len() == 8 && name[5] == 'r' {
        160
    } else if name.len() == 16 && name[5] == 'r' {
        161
    } else if name.len() == 9 && name[8] == 'a' {
        162
    } else if name.len() == 8 && name[5] == 'h' {
        163
    } else if name.len() == 16 && name[5] == 'i' {
        164
    } else if name.len() == 17 && name[5] == 'i' {
        165
    } else if name.len() == 10 && name[5] == 'e' {
        166
    } else if name.len() == 17 && name[5] == 'c' {
        167
    } else if name.len() == 26 {
        168
    } else {
        -1
    }
}

spec fn opacity_place(name: Seq<char>) -> int {
    if name.len() == 12 && name[8] == 'z' {
        169
    } else if name.len() == 11 && name[8] == 'o' {
        170
    } else if name.len() == 12 && name[8] == 'h' {
        171
    } else if name.len() == 16 && name[8] == 'n' {
        172
    } else if name.len() == 16 && name[8] == 'o' {
        173
    } else if name.len() == 11 && name[8] == 'n' {
        174
    } else if name.len() == 12 && name[8] == 't' {
        175
    } else if name.len() == 18 {
        176
    } else {
        -1
    }
}

spec fn xxe_place(name: Seq<char>) -> int {
    if name.len() == 16 {
        177
    } else if name.len() == 32 {
        178
    } else if name.len() == 24 {
        179
    } else if name.len() == 20 {
        180
    } else if name.len() == 12 {
        181
    } else if name.len() == 23 {
        182
    } else if name.len() == 19 {
        183
    } else {
        -1
    }
}

spec fn entity_place(name: Seq<char>) -> int {
    if name.len() == 21 {
        185
    } else if name.len() == 23 {
        186
    } else if name.len() == 16 && name[7] == 'r' {
        187
    } else if name.len() == 16 && name[7] == 'u' {
        188
    } else {
        -1
    }
}

spec fn other_place(name: Seq<char>) -> int {
    if name.len() == 10 && name[0] == 'e' {
        12
    } else if name.len() == 10 && name[0] == 's' {
        13
    } else if name.len() == 15 && name[4] == 'e' {
        14
    } else if name.len() == 18 && name[0] == 'p' {
        15
    } else if name.len() == 12 {
        16
    } else if name.len() == 15 && name[4] == 'b' {
        17
    } else if name.len() == 21 && name[0] == 'b' {
        18
    } else if name.len() == 17 && name[0] == 's' {
        19
    } else if name.len() == 15 && name[4] == 'n' {
        20
    } else if name.len() == 13 && name[0] == 'u' {
        21
    } else if name.len() == 15 && name[4] == 'a' {
        22
    } else if name.len() == 16 && name[0] == 'o' {
        23
    } else if name.len() == 11 && name[5] == 'p' {
        24
    } else if name.len() == 15 && name[4] == 'd' {
        25
    } else if name.len() == 22 && name[0] == 'p' {
        26
    } else if name.len() == 19 && name[0] == 'c' {
        27
    } else if name.len() == 20 {
        28
    } else if name.len() == 13 && name[0] == 'c' {
        29
    } else if name.len() == 18 && name[0] == 'u' {
        30
    } else if name.len() == 8 {
        31
    } else if name.len() == 11 && name[5] == 'l' {
        32
    } else if name.len() == 11 && name[5] == 'b' {
        33
    } else if name.len() == 32 {
        34
    } else if name.len() == 19 && name[0] == 'i' {
        35
    } else if name.len() == 18 && name[0] == 'e' {
        36
    } else if name.len() == 15 && name[4] == '-' {
        54
    } else if name.len() == 16 && name[0] == 'd' {
        55
    } else if name.len() == 17 && name[0] == 'd' {
        56
    } else if name.len() == 18 && name[0] == 'd' {
        57
    } else if name.len() == 21 && name[0] == 'd' {
        58
    } else if name.len() == 19 && name[0] == 'h' {
        59
    } else if name.len() == 21 && name[0] == 'h' {
        60
    } else if name.len() == 29 {
        61
    } else if name.len() == 21 && name[0] == '1' {
        62
    } else if name.len() == 22 && name[0] == '5' {
        63
    } else if name.len() == 26 {
        64
    } else if name.len() == 21 && name[0] == 'p' {
        65
    } else if name.len() == 25 {
        66
    } else if name.len() == 13 && name[0] == 'r' {
        67
    } else if name.len() == 22 && name[0] == 'm' {
        68
    } else if name.len() == 19 && name[0] == 'e' {
        184
    } else {
        -1
    }
}

spec fn svgz_place(name: Seq<char>) -> int {
    if name.len() == 10 {
        189
    } else if name.len() == 17 {
        190
    } else if name.len() == 15 && name[5] == 'v' {
        191
    } else if name.len() == 15 && name[5] == 'm' {
        192
    } else if name.len() == 23 && name[22] == 'e' {
        193
    } else if name.len() == 18 && name[5] == 'e' {
        194
    } else if name.len() == 18 && name[5] == 'o' {
        195
    } else if name.len() == 22 {
        196
    } else if name.len() == 23 && name[22] == '1' {
        197
    } else if name.len() == 23 && name[22] == '2' {
        198
    } else if name.len() == 23 && name[22] == '3' {
        199
    } else if name.len() == 23 && name[22] == '4' {
        200
    } else if name.len() == 23 && name[22] == '5' {
        201
    } else if name.len() == 23 && name[22] == '6' {
        202
    } else if name.len() == 23 && name[22] == '7' {
        203
    } else if name.len() == 23 && name[22] == '8' {
        204
    } else if name.len() == 23 && name[22] == '9' {
        205
    } else if name.len() == 25 && name[20] == '2' {
        206
    } else if name.len() == 25 && name[20] == '4' {
        207
    } else if name.len() == 25 && name[20] == '6' {
        208
    } else if name.len() == 25 && name[20] == '8' {
        209
    } else if name.len() == 25 && name[20] == '9' {
        210
    } else if name.len() == 20 {
        211
    } else if name.len() == 12 {
        212
    } else if name.len() == 14 {
        213
    } else if name.len() == 27 && name[6] == 'o' {
        214
    } else if name.len() == 31 && name[5] == 'u' {
        215
    } else if name.len() == 23 && name[22] == 's' {
        216
    } else if name.len() == 25 && name[20] == 'm' {
        217
    } else if name.len() == 21 {
        218
    } else if name.len() == 28 {
        219
    } else if name.len() == 29 {
        220
    } else if name.len() == 31 && name[5] == 'd' {
        221
    } else if name.len() == 27 && name[6] == 's' {
        222
    } else {
        -1
    }
}

spec fn size_place(name: Seq<char>) -> int {
    if name.len() == 19 {
        223
    } else if name.len() == 23 {
        224
    } else if name.len() == 22 {
        225
    } else if name.len() == 18 {
        226
    } else {
        -1
    }
}

/// The name begins with three given characters.
spec fn leads(name: Seq<char>, a: char, b: char, c: char) -> bool {
    name.len() >= 3 && name[0] == a && name[1] == b && name[2] == c
}

/// The place of a case. The first characters tell which family it is from.
spec fn place(name: Seq<char>) -> int {
    if leads(name, 'v', 'a', 'l') {
        valid_place(name)
    } else if leads(name, 't', 'r', 'u') {
        truncated_place(name)
    } else if leads(name, 'c', 's', 's') {
        css_place(name)
    } else if leads(name, 'v', 'i', 'e') {
        viewbox_place(name)
    } else if leads(name, 'd', 'i', 'm') {
        dimensions_place(name)
    } else if leads(name, 'c', 'o', 'o') {
        coords_place(name)
    } else if leads(name, 'p', 'a', 't') {
        path_place(name)
    } else if leads(name, 'f', 'i', 'l') {
        fill_place(name)
    } else if leads(name, 'o', 'p', 'a') {
        opacity_place(name)
    } else if leads(name, 'x', 'x', 'e') {
        xxe_place(name)
    } else if leads(name, 'e', 'n', 't') {
        entity_place(name)
    } else if leads(name, 's', 'v', 'g') && name.len() > 4 && name[3] == 'z' && name[4] == '-' {
        svgz_place(name)
    } else if leads(name, 's', 'i', 'z') {
        size_place(name)
    } else {
        other_place(name)
    }
}

/// The digits of a number below a hundred thousand.
proof fn lemma_digits(n: nat)
    requires
        n < 100_000,
    ensures
        n < 10 ==> dec(n) == seq![digit(n)],
        10 <= n < 100 ==> dec(n) == seq![digit(n / 10), digit(n % 10)],
        100 <= n < 1_000 ==> dec(n) == seq![digit(n / 100), digit(n / 10 % 10), digit(n % 10)],
        1_000 <= n < 10_000 ==> dec(n) == seq![
            digit(n / 1_000),
            digit(n / 100 % 10),
            digit(n / 10 % 10),
            digit(n % 10),
        ],
        10_000 <= n ==> dec(n) == seq![
            digit(n / 10_000),
            digit(n / 1_000 % 10),
            digit(n / 100 % 10),
            digit(n / 10 % 10),
            digit(n % 10),
        ],
{
    reveal_with_fuel(dec, 5);
}

/// The places of the cases grow from `lo` to below `hi`.
spec fn ranked(cases: Seq<CaseView>, lo: int, hi: int) -> bool {
    &&& forall|i: int| 0 <= i < cases.len() ==> lo <= place((#[trigger] cases[i]).name) < hi
    &&& forall|i: int, j: int|
        0 <= i < j < cases.len() ==> place((#[trigger] cases[i]).name) < place(
            (#[trigger] cases[j]).name,
        )
}

proof fn lemma_joined(a: Seq<CaseView>, b: Seq<CaseView>, lo: int, mid: int, hi: int)
    requires
        ranked(a, lo, mid),
        ranked(b, mid, hi),
        lo <= mid <= hi,
    ensures
        ranked(a + b, lo, hi),
{
    let all = a + b;
    assert forall|i: int| 0 <= i < all.len() implies lo <= place((#[trigger] all[i]).name) < hi by {
        if i < a.len() {
            assert(all[i] == a[i]);
        } else {
            assert(all[i] == b[i - a.len()]);
        }
    }
    assert forall|i: int, j: int| 0 <= i < j < all.len() implies place((#[trigger] all[i]).name)
        < place((#[trigger] all[j]).name) by {
        if j < a.len() {
            assert(all[i] == a[i] && all[j] == a[j]);
        } else if i < a.len() {
            assert(all[i] == a[i] && all[j] == b[j - a.len()]);
        } else {
            assert(all[i] == b[i - a.len()] && all[j] == b[j - a.len()]);
        }
    }
}

proof fn lemma_ranked_are_distinct(cases: Seq<CaseView>, lo: int, hi: int)
    requires
        ranked(cases, lo, hi),
    ensures
        distinct_names(cases),
{
    assert forall|i: int, j: int| 0 <= i < j < cases.len() implies (#[trigger] cases[i]).name != (
    #[trigger] cases[j]).name by {
        assert(place(cases[i].name) < place(cases[j].name));
    }
}

// ---------------------------------------------------------------
//                      Plain documents
// ---------------------------------------------------------------

proof fn lemma_valid()
    ensures
        ranked(valid_list(), 0, 12),
{
    reveal_strlit("valid-basic-shapes");
    reveal_strlit("valid-opaque-fill");
    reveal_strlit("valid-semi-transparent");
    reveal_strlit("valid-linear-gradient");
    reveal_strlit("valid-transform");
    reveal_strlit("valid-polygon");
    reveal_strlit("valid-path");
    reveal_strlit("valid-no-viewbox-with-dimensions");
    reveal_strlit("valid-wide-aspect");
    reveal_strlit("valid-tall-aspect");
    reveal_strlit("valid-offset-viewbox-origin");
    reveal_strlit("valid-nested-svg");
    let l = valid_list();
    assert(place(l[0].name) == 0);
    assert(place(l[1].name) == 1);
    assert(place(l[2].name) == 2);
    assert(place(l[3].name) == 3);
    assert(place(l[4].name) == 4);
    assert(place(l[5].name) == 5);
    assert(place(l[6].name) == 6);
    assert(place(l[7].name) == 7);
    assert(place(l[8].name) == 8);
    assert(place(l[9].name) == 9);
    assert(place(l[10].name) == 10);
    assert(place(l[11].name) == 11);
}

proof fn lemma_document()
    ensures
        ranked(document_list(), 12, 31),
{
    reveal_strlit("empty-file");
    reveal_strlit("single-nul");
    reveal_strlit("whitespace-only");
    reveal_strlit("plain-text-not-xml");
    reveal_strlit("html-not-svg");
    reveal_strlit("xml-but-not-svg");
    reveal_strlit("bare-svg-no-namespace");
    reveal_strlit("svg-empty-element");
    reveal_strlit("svg-no-children");
    reveal_strlit("unclosed-root");
    reveal_strlit("mismatched-tags");
    reveal_strlit("only-closing-tag");
    reveal_strlit("doctype-svg");
    reveal_strlit("xml-declaration");
    reveal_strlit("processing-instruction");
    reveal_strlit("comment-before-root");
    reveal_strlit("unterminated-comment");
    reveal_strlit("cdata-section");
    reveal_strlit("unterminated-cdata");
    let l = document_list();
    assert(place(l[0].name) == 12);
    assert(place(l[1].name) == 13);
    assert(place(l[2].name) == 14);
    assert(place(l[3].name) == 15);
    assert(place(l[4].name) == 16);
    assert(place(l[5].name) == 17);
    assert(place(l[6].name) == 18);
    assert(place(l[7].name) == 19);
    assert(place(l[8].name) == 20);
    assert(place(l[9].name) == 21);
    assert(place(l[10].name) == 22);
    assert(place(l[11].name) == 23);
    assert(place(l[12].name) == 24);
    assert(place(l[13].name) == 25);
    assert(place(l[14].name) == 26);
    assert(place(l[15].name) == 27);
    assert(place(l[16].name) == 28);
    assert(place(l[17].name) == 29);
    assert(place(l[18].name) == 30);
}

proof fn lemma_encoding()
    ensures
        ranked(encoding_list(), 31, 37),
{
    reveal_strlit("utf8-bom");
    reveal_strlit("utf16le-bom");
    reveal_strlit("utf16be-bom");
    reveal_strlit("encoding-mismatch-declared-utf16");
    reveal_strlit("invalid-utf8-midway");
    reveal_strlit("embedded-nul-bytes");
    let l = encoding_list();
    assert(place(l[0].name) == 31);
    assert(place(l[1].name) == 32);
    assert(place(l[2].name) == 33);
    assert(place(l[3].name) == 34);
    assert(place(l[4].name) == 35);
    assert(place(l[5].name) == 36);
}

proof fn lemma_truncation()
    ensures
        ranked(truncation_list(), 37, 54),
{
    reveal_strlit("truncated-");
    reveal_strlit("pct");
    reveal_strlit("truncated-minus");
    lemma_digits(1);
    lemma_digits(2);
    lemma_digits(3);
    lemma_digits(5);
    lemma_digits(6);
    lemma_digits(7);
    lemma_digits(10);
    lemma_digits(17);
    lemma_digits(25);
    lemma_digits(33);
    lemma_digits(50);
    lemma_digits(66);
    lemma_digits(75);
    lemma_digits(90);
    lemma_digits(95);
    lemma_digits(99);
    let l = truncation_list();
    assert(place(l[0].name) == 37);
    assert(place(l[1].name) == 38);
    assert(place(l[2].name) == 39);
    assert(place(l[3].name) == 40);
    assert(place(l[4].name) == 41);
    assert(place(l[5].name) == 42);
    assert(place(l[6].name) == 43);
    assert(place(l[7].name) == 44);
    assert(place(l[8].name) == 45);
    assert(place(l[9].name) == 46);
    assert(place(l[10].name) == 47);
    assert(place(l[11].name) == 48);
    assert(place(l[12].name) == 49);
    assert(place(l[13].name) == 50);
    assert(place(l[14].name) == 51);
    assert(place(l[15].name) == 52);
    assert(place(l[16].name) == 53);
}

proof fn lemma_xml_scale()
    ensures
        ranked(xml_scale_list(), 54, 69),
{
    reveal_strlit("deep-nesting-");
    reveal_strlit("deep-nesting-unclosed");
    reveal_strlit("huge-attribute-");
    reveal_strlit("kb");
    reveal_strlit("20k-attributes-on-one-element");
    reveal_strlit("-sibling-elements");
    reveal_strlit("500-namespace-declarations");
    reveal_strlit("prefixed-svg-elements");
    reveal_strlit("5k-classes-on-one-element");
    reveal_strlit("recursive-use");
    reveal_strlit("mutually-recursive-use");
    lemma_digits(64);
    lemma_digits(512);
    lemma_digits(1000);
    lemma_digits(1024);
    lemma_digits(5000);
    lemma_digits(50000);
    let l = xml_scale_list();
    assert(place(l[0].name) == 54);
    assert(place(l[1].name) == 55);
    assert(place(l[2].name) == 56);
    assert(place(l[3].name) == 57);
    assert(place(l[4].name) == 58);
    assert(place(l[5].name) == 59);
    assert(place(l[6].name) == 60);
    assert(place(l[7].name) == 61);
    assert(place(l[8].name) == 62);
    assert(place(l[9].name) == 63);
    assert(place(l[10].name) == 64);
    assert(place(l[11].name) == 65);
    assert(place(l[12].name) == 66);
    assert(place(l[13].name) == 67);
    assert(place(l[14].name) == 68);
}

proof fn lemma_rule()
    ensures
        ranked(rule_list(), 69, 89),
{
    reveal_strlit("css-basic-class");
    reveal_strlit("css-element-selector");
    reveal_strlit("css-empty-style");
    reveal_strlit("css-only-comment");
    reveal_strlit("css-unmatched-open-brace");
    reveal_strlit("css-unmatched-close-brace");
    reveal_strlit("css-only-braces");
    reveal_strlit("css-only-close-braces");
    reveal_strlit("css-unterminated-comment");
    reveal_strlit("css-unterminated-string");
    reveal_strlit("css-brace-inside-string");
    reveal_strlit("css-escaped-quote");
    reveal_strlit("css-trailing-backslash");
    reveal_strlit("css-empty-selector-list");
    reveal_strlit("css-empty-rule-body");
    reveal_strlit("css-semicolon-spam");
    reveal_strlit("css-no-semicolons");
    reveal_strlit("css-at-rule-bare");
    reveal_strlit("css-nul-in-style");
    reveal_strlit("css-unicode-selector");
    let l = rule_list();
    assert(place(l[0].name) == 69);
    assert(place(l[1].name) == 70);
    assert(place(l[2].name) == 71);
    assert(place(l[3].name) == 72);
    assert(place(l[4].name) == 73);
    assert(place(l[5].name) == 74);
    assert(place(l[6].name) == 75);
    assert(place(l[7].name) == 76);
    assert(place(l[8].name) == 77);
    assert(place(l[9].name) == 78);
    assert(place(l[10].name) == 79);
    assert(place(l[11].name) == 80);
    assert(place(l[12].name) == 81);
    assert(place(l[13].name) == 82);
    assert(place(l[14].name) == 83);
    assert(place(l[15].name) == 84);
    assert(place(l[16].name) == 85);
    assert(place(l[17].name) == 86);
    assert(place(l[18].name) == 87);
    assert(place(l[19].name) == 88);
}

proof fn lemma_important()
    ensures
        ranked(important_list(), 89, 97),
{
    reveal_strlit("css-important-");
    reveal_strlit("lower");
    reveal_strlit("css-important-inline-");
    reveal_strlit("upper");
    reveal_strlit("mixed");
    reveal_strlit("spaced");
    let l = important_list();
    assert(place(l[0].name) == 89);
    assert(place(l[1].name) == 90);
    assert(place(l[2].name) == 91);
    assert(place(l[3].name) == 92);
    assert(place(l[4].name) == 93);
    assert(place(l[5].name) == 94);
    assert(place(l[6].name) == 95);
    assert(place(l[7].name) == 96);
}

proof fn lemma_at_rule()
    ensures
        ranked(at_rule_list(), 97, 107),
{
    reveal_strlit("css-at-rule-nested-");
    reveal_strlit("css-at-rule-siblings-");
    reveal_strlit("css-at-rule-unclosed");
    lemma_digits(1);
    lemma_digits(255);
    lemma_digits(256);
    lemma_digits(257);
    lemma_digits(1000);
    lemma_digits(2000);
    let l = at_rule_list();
    assert(place(l[0].name) == 97);
    assert(place(l[1].name) == 98);
    assert(place(l[2].name) == 99);
    assert(place(l[3].name) == 100);
    assert(place(l[4].name) == 101);
    assert(place(l[5].name) == 102);
    assert(place(l[6].name) == 103);
    assert(place(l[7].name) == 104);
    assert(place(l[8].name) == 105);
    assert(place(l[9].name) == 106);
}

proof fn lemma_rule_scale()
    ensures
        ranked(rule_scale_list(), 107, 113),
{
    reveal_strlit("css-20k-distinct-rules");
    reveal_strlit("css-20k-duplicate-rules");
    reveal_strlit("css-5k-selector-list");
    reveal_strlit("css-2k-style-elements");
    reveal_strlit("css-in-cdata");
    reveal_strlit("css-inline-overrides-class");
    let l = rule_scale_list();
    assert(place(l[0].name) == 107);
    assert(place(l[1].name) == 108);
    assert(place(l[2].name) == 109);
    assert(place(l[3].name) == 110);
    assert(place(l[4].name) == 111);
    assert(place(l[5].name) == 112);
}

proof fn lemma_viewbox()
    ensures
        ranked(viewbox_list(), 113, 128),
{
    reveal_strlit("viewbox-");
    reveal_strlit("zero");
    reveal_strlit("zero-width");
    reveal_strlit("zero-height");
    reveal_strlit("negative-size");
    reveal_strlit("negative-origin");
    reveal_strlit("huge");
    reveal_strlit("tiny");
    reveal_strlit("nan");
    reveal_strlit("inf");
    reveal_strlit("too-few-values");
    reveal_strlit("too-many-values");
    reveal_strlit("non-numeric");
    reveal_strlit("empty");
    reveal_strlit("comma-separated");
    reveal_strlit("extra-whitespace");
    let l = viewbox_list();
    assert(place(l[0].name) == 113);
    assert(place(l[1].name) == 114);
    assert(place(l[2].name) == 115);
    assert(place(l[3].name) == 116);
    assert(place(l[4].name) == 117);
    assert(place(l[5].name) == 118);
    assert(place(l[6].name) == 119);
    assert(place(l[7].name) == 120);
    assert(place(l[8].name) == 121);
    assert(place(l[9].name) == 122);
    assert(place(l[10].name) == 123);
    assert(place(l[11].name) == 124);
    assert(place(l[12].name) == 125);
    assert(place(l[13].name) == 126);
    assert(place(l[14].name) == 127);
}

proof fn lemma_dimension()
    ensures
        ranked(dimension_list(), 128, 140),
{
    reveal_strlit("dimensions-");
    reveal_strlit("percent");
    reveal_strlit("-no-viewbox");
    reveal_strlit("em-units");
    reveal_strlit("pt-units");
    reveal_strlit("px-units");
    reveal_strlit("zero");
    reveal_strlit("negative");
    reveal_strlit("huge");
    reveal_strlit("nan");
    reveal_strlit("only-width");
    reveal_strlit("only-height");
    reveal_strlit("empty");
    reveal_strlit("whitespace");
    let l = dimension_list();
    assert(place(l[0].name) == 128);
    assert(place(l[1].name) == 129);
    assert(place(l[2].name) == 130);
    assert(place(l[3].name) == 131);
    assert(place(l[4].name) == 132);
    assert(place(l[5].name) == 133);
    assert(place(l[6].name) == 134);
    assert(place(l[7].name) == 135);
    assert(place(l[8].name) == 136);
    assert(place(l[9].name) == 137);
    assert(place(l[10].name) == 138);
    assert(place(l[11].name) == 139);
}

proof fn lemma_buffer()
    ensures
        ranked(buffer_list(), 140, 142),
{
    reveal_strlit("dimensions-overflowing-attribute-buffer");
    reveal_strlit("viewbox-overflowing-attribute-buffer");
    let l = buffer_list();
    assert(place(l[0].name) == 140);
    assert(place(l[1].name) == 141);
}

proof fn lemma_coordinate()
    ensures
        ranked(coordinate_list(), 142, 149),
{
    reveal_strlit("coords-");
    reveal_strlit("nan-coords");
    reveal_strlit("inf-coords");
    reveal_strlit("huge-exponent");
    reveal_strlit("denormal");
    reveal_strlit("many-digits");
    reveal_strlit("leading-plus");
    reveal_strlit("hex-numbers");
    let l = coordinate_list();
    assert(place(l[0].name) == 142);
    assert(place(l[1].name) == 143);
    assert(place(l[2].name) == 144);
    assert(place(l[3].name) == 145);
    assert(place(l[4].name) == 146);
    assert(place(l[5].name) == 147);
    assert(place(l[6].name) == 148);
}

proof fn lemma_long_path()
    ensures
        ranked(seq![long_path()], 149, 150),
{
    reveal_strlit("path-50k-segments");
    let l = seq![long_path()];
    assert(place(l[0].name) == 149);
}

proof fn lemma_path()
    ensures
        ranked(path_list(), 150, 156),
{
    reveal_strlit("path-");
    reveal_strlit("garbage");
    reveal_strlit("truncated-command");
    reveal_strlit("nan-in-path");
    reveal_strlit("empty");
    reveal_strlit("only-spaces");
    reveal_strlit("huge-numbers");
    let l = path_list();
    assert(place(l[0].name) == 150);
    assert(place(l[1].name) == 151);
    assert(place(l[2].name) == 152);
    assert(place(l[3].name) == 153);
    assert(place(l[4].name) == 154);
    assert(place(l[5].name) == 155);
}

proof fn lemma_fill()
    ensures
        ranked(fill_list(), 156, 169),
{
    reveal_strlit("fill-");
    reveal_strlit("named");
    reveal_strlit("hex3");
    reveal_strlit("hex6");
    reveal_strlit("hex8-with-alpha");
    reveal_strlit("rgb");
    reveal_strlit("rgb-percent");
    reveal_strlit("rgba");
    reveal_strlit("hsl");
    reveal_strlit("invalid-hex");
    reveal_strlit("invalid-name");
    reveal_strlit("empty");
    reveal_strlit("currentcolor");
    reveal_strlit("url-reference-missing");
    let l = fill_list();
    assert(place(l[0].name) == 156);
    assert(place(l[1].name) == 157);
    assert(place(l[2].name) == 158);
    assert(place(l[3].name) == 159);
    assert(place(l[4].name) == 160);
    assert(place(l[5].name) == 161);
    assert(place(l[6].name) == 162);
    assert(place(l[7].name) == 163);
    assert(place(l[8].name) == 164);
    assert(place(l[9].name) == 165);
    assert(place(l[10].name) == 166);
    assert(place(l[11].name) == 167);
    assert(place(l[12].name) == 168);
}

proof fn lemma_opacity()
    ensures
        ranked(opacity_list(), 169, 177),
{
    reveal_strlit("opacity-");
    reveal_strlit("zero");
    reveal_strlit("one");
    reveal_strlit("half");
    reveal_strlit("negative");
    reveal_strlit("over-one");
    reveal_strlit("nan");
    reveal_strlit("tiny");
    reveal_strlit("almost-one");
    let l = opacity_list();
    assert(place(l[0].name) == 169);
    assert(place(l[1].name) == 170);
    assert(place(l[2].name) == 171);
    assert(place(l[3].name) == 172);
    assert(place(l[4].name) == 173);
    assert(place(l[5].name) == 174);
    assert(place(l[6].name) == 175);
    assert(place(l[7].name) == 176);
}

proof fn lemma_external(url: Seq<char>, sentinel: Seq<char>)
    ensures
        ranked(external_list(url, sentinel), 177, 185),
{
    reveal_strlit("xxe-external-dtd");
    reveal_strlit("xxe-external-general-entity-http");
    reveal_strlit("xxe-external-entity-file");
    reveal_strlit("xxe-parameter-entity");
    reveal_strlit("xxe-unc-path");
    reveal_strlit("xxe-entity-in-attribute");
    reveal_strlit("xxe-stylesheet-href");
    reveal_strlit("external-image-href");
    let l = external_list(url, sentinel);
    assert(place(l[0].name) == 177);
    assert(place(l[1].name) == 178);
    assert(place(l[2].name) == 179);
    assert(place(l[3].name) == 180);
    assert(place(l[4].name) == 181);
    assert(place(l[5].name) == 182);
    assert(place(l[6].name) == 183);
    assert(place(l[7].name) == 184);
}

proof fn lemma_expansion()
    ensures
        ranked(expansion_list(), 185, 189),
{
    reveal_strlit("entity-billion-laughs");
    reveal_strlit("entity-quadratic-blowup");
    reveal_strlit("entity-recursive");
    reveal_strlit("entity-undefined");
    let l = expansion_list();
    assert(place(l[0].name) == 185);
    assert(place(l[1].name) == 186);
    assert(place(l[2].name) == 187);
    assert(place(l[3].name) == 188);
}

proof fn lemma_structural()
    ensures
        ranked(structural_list(), 12, 54),
{
    lemma_document();
    lemma_encoding();
    lemma_truncation();
    lemma_joined(document_list(), encoding_list(), 12, 31, 37);
    lemma_joined(document_list() + encoding_list(), truncation_list(), 12, 37, 54);
}

proof fn lemma_css()
    ensures
        ranked(css_list(), 69, 113),
{
    lemma_rule();
    lemma_important();
    lemma_at_rule();
    lemma_rule_scale();
    lemma_joined(rule_list(), important_list(), 69, 89, 97);
    lemma_joined(rule_list() + important_list(), at_rule_list(), 69, 97, 107);
    lemma_joined(rule_list() + important_list() + at_rule_list(), rule_scale_list(), 69, 107, 113);
}

proof fn lemma_numeric()
    ensures
        ranked(numeric_list(), 113, 177),
{
    lemma_viewbox();
    lemma_dimension();
    lemma_buffer();
    lemma_coordinate();
    lemma_long_path();
    lemma_path();
    lemma_fill();
    lemma_opacity();
    lemma_joined(viewbox_list(), dimension_list(), 113, 128, 140);
    lemma_joined(viewbox_list() + dimension_list(), buffer_list(), 113, 140, 142);
    lemma_joined(
        viewbox_list() + dimension_list() + buffer_list(),
        coordinate_list(),
        113,
        142,
        149,
    );
    lemma_joined(
        viewbox_list() + dimension_list() + buffer_list() + coordinate_list(),
        seq![long_path()],
        113,
        149,
        150,
    );
    lemma_joined(
        viewbox_list() + dimension_list() + buffer_list() + coordinate_list() + seq![long_path()],
        path_list(),
        113,
        150,
        156,
    );
    lemma_joined(
        viewbox_list() + dimension_list() + buffer_list() + coordinate_list()
            + seq![long_path()] + path_list(),
        fill_list(),
        113,
        156,
        169,
    );
    lemma_joined(
        viewbox_list() + dimension_list() + buffer_list() + coordinate_list()
            + seq![long_path()] + path_list() + fill_list(),
        opacity_list(),
        113,
        169,
        177,
    );
}

proof fn lemma_entity(url: Seq<char>, sentinel: Seq<char>)
    ensures
        ranked(entity_list(url, sentinel), 177, 189),
{
    lemma_external(url, sentinel);
    lemma_expansion();
    lemma_joined(external_list(url, sentinel), expansion_list(), 177, 185, 189);
}

proof fn lemma_all(url: Seq<char>, sentinel: Seq<char>)
    ensures
        ranked(all_list(url, sentinel), 0, 189),
{
    lemma_valid();
    lemma_structural();
    lemma_xml_scale();
    lemma_css();
    lemma_numeric();
    lemma_entity(url, sentinel);
    lemma_joined(valid_list(), structural_list(), 0, 12, 54);
    lemma_joined(valid_list() + structural_list(), xml_scale_list(), 0, 54, 69);
    lemma_joined(valid_list() + structural_list() + xml_scale_list(), css_list(), 0, 69, 113);
    lemma_joined(
        valid_list() + structural_list() + xml_scale_list() + css_list(),
        numeric_list(),
        0,
        113,
        177,
    );
    lemma_joined(
        valid_list() + structural_list() + xml_scale_list() + css_list() + numeric_list(),
        entity_list(url, sentinel),
        0,
        177,
        189,
    );
}

// ---------------------------------------------------------------
//                     Compressed documents
// ---------------------------------------------------------------

proof fn lemma_optional(wanted: bool, c: CaseView, lo: int)
    requires
        place(c.name) == lo,
    ensures
        ranked(only_if(wanted, c), lo, lo + 1),
{
}

proof fn lemma_whole(m: MembersView)
    ensures
        ranked(whole_list(m), 189, 197),
{
    reveal_strlit("svgz-valid");
    reveal_strlit("svgz-valid-stored");
    reveal_strlit("svgz-valid-best");
    reveal_strlit("svgz-magic-only");
    reveal_strlit("svgz-magic-plus-garbage");
    reveal_strlit("svgz-empty-payload");
    reveal_strlit("svgz-of-plain-text");
    reveal_strlit("svgz-double-compressed");
    let l = whole_list(m);
    assert(place(l[0].name) == 189);
    assert(place(l[1].name) == 190);
    assert(place(l[2].name) == 191);
    assert(place(l[3].name) == 192);
    assert(place(l[4].name) == 193);
    assert(place(l[5].name) == 194);
    assert(place(l[6].name) == 195);
    assert(place(l[7].name) == 196);
}

proof fn lemma_header_cut(valid: Seq<u8>, n: nat)
    requires
        1 <= n <= 9,
    ensures
        place(header_cut(valid, n).name) == 196 + n,
{
    reveal_strlit("svgz-truncated-header-");
    lemma_digits(n);
}

proof fn lemma_header_cuts(valid: Seq<u8>, n: nat)
    requires
        n <= 9,
    ensures
        ranked(header_cuts(valid, n), 197, 197int + n),
    decreases n,
{
    if n > 0 {
        let before = header_cuts(valid, (n - 1) as nat);
        lemma_header_cuts(valid, (n - 1) as nat);
        lemma_header_cut(valid, n);
        lemma_optional(valid.len() > n, header_cut(valid, n), 196int + n);
        lemma_joined(
            before,
            only_if(valid.len() > n, header_cut(valid, n)),
            197,
            196int + n,
            197int + n,
        );
    }
}

proof fn lemma_body_cut(valid: Seq<u8>, percent: nat, lo: int)
    requires
        (percent == 20 && lo == 206) || (percent == 40 && lo == 207) || (percent == 60 && lo == 208)
            || (percent == 80 && lo == 209) || (percent == 95 && lo == 210),
    ensures
        ranked(body_cut_if(valid, percent), lo, lo + 1),
{
    reveal_strlit("svgz-truncated-body-");
    reveal_strlit("pct");
    lemma_digits(percent);
    assert(place(body_cut(valid, percent).name) == lo);
    lemma_optional(portion(valid.len(), percent) > 10, body_cut(valid, percent), lo);
}

proof fn lemma_cuts(valid: Seq<u8>)
    ensures
        ranked(svgz_truncation_list(valid), 197, 212),
{
    reveal_strlit("svgz-missing-trailer");
    let trailer = hostile_bytes("svgz-missing-trailer"@, valid.take(valid.len() - 8));
    let headers = header_cuts(valid, 9);
    let b20 = body_cut_if(valid, 20);
    let b40 = body_cut_if(valid, 40);
    let b60 = body_cut_if(valid, 60);
    let b80 = body_cut_if(valid, 80);
    let b95 = body_cut_if(valid, 95);
    lemma_header_cuts(valid, 9);
    lemma_body_cut(valid, 20, 206);
    lemma_body_cut(valid, 40, 207);
    lemma_body_cut(valid, 60, 208);
    lemma_body_cut(valid, 80, 209);
    lemma_body_cut(valid, 95, 210);
    assert(place(trailer.name) == 211);
    lemma_optional(valid.len() > 8, trailer, 211);
    lemma_joined(headers, b20, 197, 206, 207);
    lemma_joined(headers + b20, b40, 197, 207, 208);
    lemma_joined(headers + b20 + b40, b60, 197, 208, 209);
    lemma_joined(headers + b20 + b40 + b60, b80, 197, 209, 210);
    lemma_joined(headers + b20 + b40 + b60 + b80, b95, 197, 210, 211);
    lemma_joined(
        headers + b20 + b40 + b60 + b80 + b95,
        only_if(valid.len() > 8, trailer),
        197,
        211,
        212,
    );
}

proof fn lemma_corruptions(valid: Seq<u8>)
    ensures
        ranked(corruption_list(valid), 212, 217),
{
    reveal_strlit("svgz-bad-crc");
    reveal_strlit("svgz-bad-isize");
    reveal_strlit("svgz-corrupt-deflate-stream");
    reveal_strlit("svgz-unknown-compression-method");
    reveal_strlit("svgz-reserved-flag-bits");
    let n = valid.len() as int;
    let crc = hostile_bytes("svgz-bad-crc"@, flipped(valid, n - 8));
    let isize = hostile_bytes("svgz-bad-isize"@, flipped(flipped(valid, n - 4), n - 3));
    let stream = hostile_bytes("svgz-corrupt-deflate-stream"@, flipped(valid, n / 2));
    let method = hostile_bytes("svgz-unknown-compression-method"@, valid.update(2, 0x07u8));
    let flags = hostile_bytes("svgz-reserved-flag-bits"@, valid.update(3, 0xE0u8));
    lemma_optional(n > 8, crc, 212);
    lemma_optional(n > 8, isize, 213);
    lemma_optional(n > 20, stream, 214);
    lemma_optional(n > 10, method, 215);
    lemma_optional(n > 10, flags, 216);
    let a = only_if(n > 8, crc);
    let b = only_if(n > 8, isize);
    let c = only_if(n > 20, stream);
    let d = only_if(n > 10, method);
    let e = only_if(n > 10, flags);
    lemma_joined(a, b, 212, 213, 214);
    lemma_joined(a + b, c, 212, 214, 215);
    lemma_joined(a + b + c, d, 212, 215, 216);
    lemma_joined(a + b + c + d, e, 212, 216, 217);
}

proof fn lemma_tail(m: MembersView)
    ensures
        ranked(tail_list(m), 217, 223),
{
    reveal_strlit("svgz-concatenated-members");
    reveal_strlit("svgz-trailing-garbage");
    reveal_strlit("svgz-decompression-bomb-64mb");
    reveal_strlit("svgz-decompression-bomb-512mb");
    reveal_strlit("svgz-deep-nesting-after-inflate");
    reveal_strlit("svgz-css-bomb-after-inflate");
    let l = tail_list(m);
    assert(place(l[0].name) == 217);
    assert(place(l[1].name) == 218);
    assert(place(l[2].name) == 219);
    assert(place(l[3].name) == 220);
    assert(place(l[4].name) == 221);
    assert(place(l[5].name) == 222);
}

proof fn lemma_svgz(m: MembersView)
    ensures
        ranked(svgz_list(m), 189, 223),
{
    lemma_whole(m);
    lemma_cuts(m.valid);
    lemma_corruptions(m.valid);
    lemma_tail(m);
    let cuts = svgz_truncation_list(m.valid);
    lemma_joined(whole_list(m), cuts, 189, 197, 212);
    lemma_joined(whole_list(m) + cuts, corruption_list(m.valid), 189, 212, 217);
    lemma_joined(
        whole_list(m) + cuts + corruption_list(m.valid),
        tail_list(m),
        189,
        217,
        223,
    );
}

proof fn lemma_size_limits()
    ensures
        ranked(size_limit_list(), 223, 227),
{
    reveal_strlit("size-8mib-under-cap");
    reveal_strlit("size-one-byte-under-cap");
    reveal_strlit("size-one-byte-over-cap");
    reveal_strlit("size-well-over-cap");
    let l = size_limit_list();
    assert(place(l[0].name) == 223);
    assert(place(l[1].name) == 224);
    assert(place(l[2].name) == 225);
    assert(place(l[3].name) == 226);
}

// ---------------------------------------------------------------
//                             Laws
// ---------------------------------------------------------------

/// No two cases share a name: neither within a corpus nor between the plain, the
/// compressed and the heavy one. This holds whatever the compressor makes of the
/// documents, and wherever the probe listens.
pub proof fn every_case_has_its_own_name(
    url: Seq<char>,
    sentinel: Seq<char>,
    m: MembersView,
)
    ensures
        distinct_names(all_list(url, sentinel) + svgz_list(m) + size_limit_list()),
        distinct_names(all_list(url, sentinel)),
        distinct_names(svgz_list(m)),
        distinct_names(size_limit_list()),
{
    lemma_all(url, sentinel);
    lemma_svgz(m);
    lemma_size_limits();
    let all = all_list(url, sentinel);
    lemma_joined(all, svgz_list(m), 0, 189, 223);
    lemma_joined(all + svgz_list(m), size_limit_list(), 0, 223, 227);
    lemma_ranked_are_distinct(all + svgz_list(m) + size_limit_list(), 0, 227);
    lemma_ranked_are_distinct(all, 0, 189);
    lemma_ranked_are_distinct(svgz_list(m), 189, 223);
    lemma_ranked_are_distinct(size_limit_list(), 223, 227);
}

/// Asking for a plain case by its name runs that case and no other.
pub proof fn a_plain_name_selects_one_case(url: Seq<char>, sentinel: Seq<char>, i: int)
    requires
        0 <= i < all_list(url, sentinel).len(),
    ensures
        chosen(
            all_list(url, sentinel),
            Some(all_list(url, sentinel)[i].name),
            all_list(url, sentinel).len(),
        ) == seq![i],
{
    let cases = all_list(url, sentinel);
    lemma_all(url, sentinel);
    lemma_ranked_are_distinct(cases, 0, 189);
    a_name_selects_one_case(cases, i, cases.len());
}

/// The case that holds the two forms of one document against each other has a name
/// that no compressed document has.
pub proof fn the_agreement_has_its_own_name(m: MembersView, i: int)
    requires
        0 <= i < svgz_list(m).len(),
    ensures
        svgz_list(m)[i].name != AGREEMENT_CASE@,
{
    lemma_svgz(m);
    reveal_strlit("svgz_and_svg_agree");
    assert(189 <= place(svgz_list(m)[i].name) < 223);
    assert(AGREEMENT_CASE@[4] == '_');
    assert(place(AGREEMENT_CASE@) == other_place(AGREEMENT_CASE@));
}

/// Asking for an oversized case by its name runs that case and no other.
pub proof fn a_heavy_name_selects_one_case(i: int)
    requires
        0 <= i < size_limit_list().len(),
    ensures
        chosen(
            size_limit_list(),
            Some(size_limit_list()[i].name),
            size_limit_list().len(),
        ) == seq![i],
{
    let cases = size_limit_list();
    lemma_size_limits();
    lemma_ranked_are_distinct(cases, 223, 227);
    a_name_selects_one_case(cases, i, cases.len());
}

/// Asking for a compressed case by its name runs that case and no other.
pub proof fn a_compressed_name_selects_one_case(m: MembersView, i: int)
    requires
        0 <= i < svgz_list(m).len(),
    ensures
        chosen(svgz_list(m), Some(svgz_list(m)[i].name), svgz_list(m).len()) == seq![i],
{
    let cases = svgz_list(m);
    lemma_svgz(m);
    lemma_ranked_are_distinct(cases, 189, 223);
    a_name_selects_one_case(cases, i, cases.len());
}

} // verus!
