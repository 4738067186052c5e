//! Romaji to hiragana transliteration.
//!
//! A fixed table of (pattern, kana) rules drives a tokenizer that takes one
//! character at a time. A buffer that is still a strict prefix of some pattern
//! waits; a buffer that equals a pattern is replaced by its kana; anything
//! else is resolved by the "n" and pass-through rules below.

use vstd::prelude::*;

use crate::text::{chars_of, push_char, push_chars, push_str, string_from};

verus! {

/// Number of rules in the transliteration table.
pub const RULE_COUNT: usize = 148;

/// The romaji pattern of rule `i` of the transliteration table.
pub open spec fn rule_pattern(i: int) -> Seq<char> {
    if i == 0 {
        seq!['s', 'h', 'a']
    } else if i == 1 {
        seq!['s', 'h', 'i']
    } else if i == 2 {
        seq!['s', 'h', 'u']
    } else if i == 3 {
        seq!['s', 'h', 'o']
    } else if i == 4 {
        seq!['c', 'h', 'i']
    } else if i == 5 {
        seq!['c', 'h', 'a']
    } else if i == 6 {
        seq!['c', 'h', 'u']
    } else if i == 7 {
        seq!['c', 'h', 'o']
    } else if i == 8 {
        seq!['t', 's', 'u']
    } else if i == 9 {
        seq!['k', 'y', 'a']
    } else if i == 10 {
        seq!['k', 'y', 'u']
    } else if i == 11 {
        seq!['k', 'y', 'o']
    } else if i == 12 {
        seq!['g', 'y', 'a']
    } else if i == 13 {
        seq!['g', 'y', 'u']
    } else if i == 14 {
        seq!['g', 'y', 'o']
    } else if i == 15 {
        seq!['n', 'y', 'a']
    } else if i == 16 {
        seq!['n', 'y', 'u']
    } else if i == 17 {
        seq!['n', 'y', 'o']
    } else if i == 18 {
        seq!['h', 'y', 'a']
    } else if i == 19 {
        seq!['h', 'y', 'u']
    } else if i == 20 {
        seq!['h', 'y', 'o']
    } else if i == 21 {
        seq!['b', 'y', 'a']
    } else if i == 22 {
        seq!['b', 'y', 'u']
    } else if i == 23 {
        seq!['b', 'y', 'o']
    } else if i == 24 {
        seq!['p', 'y', 'a']
    } else if i == 25 {
        seq!['p', 'y', 'u']
    } else if i == 26 {
        seq!['p', 'y', 'o']
    } else if i == 27 {
        seq!['m', 'y', 'a']
    } else if i == 28 {
        seq!['m', 'y', 'u']
    } else if i == 29 {
        seq!['m', 'y', 'o']
    } else if i == 30 {
        seq!['r', 'y', 'a']
    } else if i == 31 {
        seq!['r', 'y', 'u']
    } else if i == 32 {
        seq!['r', 'y', 'o']
    } else if i == 33 {
        seq!['j', 'y', 'a']
    } else if i == 34 {
        seq!['j', 'y', 'u']
    } else if i == 35 {
        seq!['j', 'y', 'o']
    } else if i == 36 {
        seq!['d', 'y', 'a']
    } else if i == 37 {
        seq!['d', 'y', 'u']
    } else if i == 38 {
        seq!['d', 'y', 'o']
    } else if i == 39 {
        seq!['x', 'y', 'a']
    } else if i == 40 {
        seq!['x', 'y', 'u']
    } else if i == 41 {
        seq!['x', 'y', 'o']
    } else if i == 42 {
        seq!['x', 't', 'u']
    } else if i == 43 {
        seq!['x', 'w', 'a']
    } else if i == 44 {
        seq!['l', 'y', 'a']
    } else if i == 45 {
        seq!['l', 'y', 'u']
    } else if i == 46 {
        seq!['l', 'y', 'o']
    } else if i == 47 {
        seq!['l', 't', 'u']
    } else if i == 48 {
        seq!['l', 'w', 'a']
    } else if i == 49 {
        seq!['k', 'a']
    } else if i == 50 {
        seq!['k', 'i']
    } else if i == 51 {
        seq!['k', 'u']
    } else if i == 52 {
        seq!['k', 'e']
    } else if i == 53 {
        seq!['k', 'o']
    } else if i == 54 {
        seq!['s', 'a']
    } else if i == 55 {
        seq!['s', 'i']
    } else if i == 56 {
        seq!['s', 'u']
    } else if i == 57 {
        seq!['s', 'e']
    } else if i == 58 {
        seq!['s', 'o']
    } else if i == 59 {
        seq!['t', 'a']
    } else if i == 60 {
        seq!['t', 'i']
    } else if i == 61 {
        seq!['t', 'u']
    } else if i == 62 {
        seq!['t', 'e']
    } else if i == 63 {
        seq!['t', 'o']
    } else if i == 64 {
        seq!['n', 'a']
    } else if i == 65 {
        seq!['n', 'i']
    } else if i == 66 {
        seq!['n', 'u']
    } else if i == 67 {
        seq!['n', 'e']
    } else if i == 68 {
        seq!['n', 'o']
    } else if i == 69 {
        seq!['h', 'a']
    } else if i == 70 {
        seq!['h', 'i']
    } else if i == 71 {
        seq!['h', 'u']
    } else if i == 72 {
        seq!['f', 'u']
    } else if i == 73 {
        seq!['h', 'e']
    } else if i == 74 {
        seq!['h', 'o']
    } else if i == 75 {
        seq!['m', 'a']
    } else if i == 76 {
        seq!['m', 'i']
    } else if i == 77 {
        seq!['m', 'u']
    } else if i == 78 {
        seq!['m', 'e']
    } else if i == 79 {
        seq!['m', 'o']
    } else if i == 80 {
        seq!['y', 'a']
    } else if i == 81 {
        seq!['y', 'u']
    } else if i == 82 {
        seq!['y', 'o']
    } else if i == 83 {
        seq!['r', 'a']
    } else if i == 84 {
        seq!['r', 'i']
    } else if i == 85 {
        seq!['r', 'u']
    } else if i == 86 {
        seq!['r', 'e']
    } else if i == 87 {
        seq!['r', 'o']
    } else if i == 88 {
        seq!['w', 'a']
    } else if i == 89 {
        seq!['w', 'i']
    } else if i == 90 {
        seq!['w', 'e']
    } else if i == 91 {
        seq!['w', 'o']
    } else if i == 92 {
        seq!['g', 'a']
    } else if i == 93 {
        seq!['g', 'i']
    } else if i == 94 {
        seq!['g', 'u']
    } else if i == 95 {
        seq!['g', 'e']
    } else if i == 96 {
        seq!['g', 'o']
    } else if i == 97 {
        seq!['z', 'a']
    } else if i == 98 {
        seq!['z', 'i']
    } else if i == 99 {
        seq!['z', 'u']
    } else if i == 100 {
        seq!['z', 'e']
    } else if i == 101 {
        seq!['z', 'o']
    } else if i == 102 {
        seq!['d', 'a']
    } else if i == 103 {
        seq!['d', 'i']
    } else if i == 104 {
        seq!['d', 'u']
    } else if i == 105 {
        seq!['d', 'e']
    } else if i == 106 {
        seq!['d', 'o']
    } else if i == 107 {
        seq!['b', 'a']
    } else if i == 108 {
        seq!['b', 'i']
    } else if i == 109 {
        seq!['b', 'u']
    } else if i == 110 {
        seq!['b', 'e']
    } else if i == 111 {
        seq!['b', 'o']
    } else if i == 112 {
        seq!['p', 'a']
    } else if i == 113 {
        seq!['p', 'i']
    } else if i == 114 {
        seq!['p', 'u']
    } else if i == 115 {
        seq!['p', 'e']
    } else if i == 116 {
        seq!['p', 'o']
    } else if i == 117 {
        seq!['j', 'a']
    } else if i == 118 {
        seq!['j', 'i']
    } else if i == 119 {
        seq!['j', 'u']
    } else if i == 120 {
        seq!['j', 'o']
    } else if i == 121 {
        seq!['f', 'a']
    } else if i == 122 {
        seq!['f', 'i']
    } else if i == 123 {
        seq!['f', 'e']
    } else if i == 124 {
        seq!['f', 'o']
    } else if i == 125 {
        seq!['v', 'a']
    } else if i == 126 {
        seq!['v', 'i']
    } else if i == 127 {
        seq!['v', 'u']
    } else if i == 128 {
        seq!['v', 'e']
    } else if i == 129 {
        seq!['v', 'o']
    } else if i == 130 {
        seq!['x', 'a']
    } else if i == 131 {
        seq!['x', 'i']
    } else if i == 132 {
        seq!['x', 'u']
    } else if i == 133 {
        seq!['x', 'e']
    } else if i == 134 {
        seq!['x', 'o']
    } else if i == 135 {
        seq!['l', 'a']
    } else if i == 136 {
        seq!['l', 'i']
    } else if i == 137 {
        seq!['l', 'u']
    } else if i == 138 {
        seq!['l', 'e']
    } else if i == 139 {
        seq!['l', 'o']
    } else if i == 140 {
        seq!['a']
    } else if i == 141 {
        seq!['i']
    } else if i == 142 {
        seq!['u']
    } else if i == 143 {
        seq!['e']
    } else if i == 144 {
        seq!['o']
    } else if i == 145 {
        seq!['-']
    } else if i == 146 {
        seq![',']
    } else if i == 147 {
        seq!['.']
    } else {
        seq![]
    }
}

/// The kana that rule `i` of the transliteration table produces.
pub open spec fn rule_kana(i: int) -> Seq<char> {
    if i == 0 {
        "しゃ"@
    } else if i == 1 {
        "し"@
    } else if i == 2 {
        "しゅ"@
    } else if i == 3 {
        "しょ"@
    } else if i == 4 {
        "ち"@
    } else if i == 5 {
        "ちゃ"@
    } else if i == 6 {
        "ちゅ"@
    } else if i == 7 {
        "ちょ"@
    } else if i == 8 {
        "つ"@
    } else if i == 9 {
        "きゃ"@
    } else if i == 10 {
        "きゅ"@
    } else if i == 11 {
        "きょ"@
    } else if i == 12 {
        "ぎゃ"@
    } else if i == 13 {
        "ぎゅ"@
    } else if i == 14 {
        "ぎょ"@
    } else if i == 15 {
        "にゃ"@
    } else if i == 16 {
        "にゅ"@
    } else if i == 17 {
        "にょ"@
    } else if i == 18 {
        "ひゃ"@
    } else if i == 19 {
        "ひゅ"@
    } else if i == 20 {
        "ひょ"@
    } else if i == 21 {
        "びゃ"@
    } else if i == 22 {
        "びゅ"@
    } else if i == 23 {
        "びょ"@
    } else if i == 24 {
        "ぴゃ"@
    } else if i == 25 {
        "ぴゅ"@
    } else if i == 26 {
        "ぴょ"@
    } else if i == 27 {
        "みゃ"@
    } else if i == 28 {
        "みゅ"@
    } else if i == 29 {
        "みょ"@
    } else if i == 30 {
        "りゃ"@
    } else if i == 31 {
        "りゅ"@
    } else if i == 32 {
        "りょ"@
    } else if i == 33 {
        "じゃ"@
    } else if i == 34 {
        "じゅ"@
    } else if i == 35 {
        "じょ"@
    } else if i == 36 {
        "ぢゃ"@
    } else if i == 37 {
        "ぢゅ"@
    } else if i == 38 {
        "ぢょ"@
    } else if i == 39 {
        "ゃ"@
    } else if i == 40 {
        "ゅ"@
    } else if i == 41 {
        "ょ"@
    } else if i == 42 {
        "っ"@
    } else if i == 43 {
        "ゎ"@
    } else if i == 44 {
        "ゃ"@
    } else if i == 45 {
        "ゅ"@
    } else if i == 46 {
        "ょ"@
    } else if i == 47 {
        "っ"@
    } else if i == 48 {
        "ゎ"@
    } else if i == 49 {
        "か"@
    } else if i == 50 {
        "き"@
    } else if i == 51 {
        "く"@
    } else if i == 52 {
        "け"@
    } else if i == 53 {
        "こ"@
    } else if i == 54 {
        "さ"@
    } else if i == 55 {
        "し"@
    } else if i == 56 {
        "す"@
    } else if i == 57 {
        "せ"@
    } else if i == 58 {
        "そ"@
    } else if i == 59 {
        "た"@
    } else if i == 60 {
        "ち"@
    } else if i == 61 {
        "つ"@
    } else if i == 62 {
        "て"@
    } else if i == 63 {
        "と"@
    } else if i == 64 {
        "な"@
    } else if i == 65 {
        "に"@
    } else if i == 66 {
        "ぬ"@
    } else if i == 67 {
        "ね"@
    } else if i == 68 {
        "の"@
    } else if i == 69 {
        "は"@
    } else if i == 70 {
        "ひ"@
    } else if i == 71 {
        "ふ"@
    } else if i == 72 {
        "ふ"@
    } else if i == 73 {
        "へ"@
    } else if i == 74 {
        "ほ"@
    } else if i == 75 {
        "ま"@
    } else if i == 76 {
        "み"@
    } else if i == 77 {
        "む"@
    } else if i == 78 {
        "め"@
    } else if i == 79 {
        "も"@
    } else if i == 80 {
        "や"@
    } else if i == 81 {
        "ゆ"@
    } else if i == 82 {
        "よ"@
    } else if i == 83 {
        "ら"@
    } else if i == 84 {
        "り"@
    } else if i == 85 {
        "る"@
    } else if i == 86 {
        "れ"@
    } else if i == 87 {
        "ろ"@
    } else if i == 88 {
        "わ"@
    } else if i == 89 {
        "ゐ"@
    } else if i == 90 {
        "ゑ"@
    } else if i == 91 {
        "を"@
    } else if i == 92 {
        "が"@
    } else if i == 93 {
        "ぎ"@
    } else if i == 94 {
        "ぐ"@
    } else if i == 95 {
        "げ"@
    } else if i == 96 {
        "ご"@
    } else if i == 97 {
        "ざ"@
    } else if i == 98 {
        "じ"@
    } else if i == 99 {
        "ず"@
    } else if i == 100 {
        "ぜ"@
    } else if i == 101 {
        "ぞ"@
    } else if i == 102 {
        "だ"@
    } else if i == 103 {
        "ぢ"@
    } else if i == 104 {
        "づ"@
    } else if i == 105 {
        "で"@
    } else if i == 106 {
        "ど"@
    } else if i == 107 {
        "ば"@
    } else if i == 108 {
        "び"@
    } else if i == 109 {
        "ぶ"@
    } else if i == 110 {
        "べ"@
    } else if i == 111 {
        "ぼ"@
    } else if i == 112 {
        "ぱ"@
    } else if i == 113 {
        "ぴ"@
    } else if i == 114 {
        "ぷ"@
    } else if i == 115 {
        "ぺ"@
    } else if i == 116 {
        "ぽ"@
    } else if i == 117 {
        "じゃ"@
    } else if i == 118 {
        "じ"@
    } else if i == 119 {
        "じゅ"@
    } else if i == 120 {
        "じょ"@
    } else if i == 121 {
        "ふぁ"@
    } else if i == 122 {
        "ふぃ"@
    } else if i == 123 {
        "ふぇ"@
    } else if i == 124 {
        "ふぉ"@
    } else if i == 125 {
        "ゔぁ"@
    } else if i == 126 {
        "ゔぃ"@
    } else if i == 127 {
        "ゔ"@
    } else if i == 128 {
        "ゔぇ"@
    } else if i == 129 {
        "ゔぉ"@
    } else if i == 130 {
        "ぁ"@
    } else if i == 131 {
        "ぃ"@
    } else if i == 132 {
        "ぅ"@
    } else if i == 133 {
        "ぇ"@
    } else if i == 134 {
        "ぉ"@
    } else if i == 135 {
        "ぁ"@
    } else if i == 136 {
        "ぃ"@
    } else if i == 137 {
        "ぅ"@
    } else if i == 138 {
        "ぇ"@
    } else if i == 139 {
        "ぉ"@
    } else if i == 140 {
        "あ"@
    } else if i == 141 {
        "い"@
    } else if i == 142 {
        "う"@
    } else if i == 143 {
        "え"@
    } else if i == 144 {
        "お"@
    } else if i == 145 {
        "ー"@
    } else if i == 146 {
        "、"@
    } else if i == 147 {
        "。"@
    } else {
        seq![]
    }
}

/// Rule `i` of the transliteration table, as (pattern, kana).
fn rule_at(i: usize) -> (r: (&'static str, &'static str))
    requires
        i < RULE_COUNT,
    ensures
        r.0@ == rule_pattern(i as int),
        r.1@ == rule_kana(i as int),
{
    match i {
        0 => {
            proof {
                reveal_strlit("sha");
            }
            ("sha", "しゃ")
        },
        1 => {
            proof {
                reveal_strlit("shi");
            }
            ("shi", "し")
        },
        2 => {
            proof {
                reveal_strlit("shu");
            }
            ("shu", "しゅ")
        },
        3 => {
            proof {
                reveal_strlit("sho");
            }
            ("sho", "しょ")
        },
        4 => {
            proof {
                reveal_strlit("chi");
            }
            ("chi", "ち")
        },
        5 => {
            proof {
                reveal_strlit("cha");
            }
            ("cha", "ちゃ")
        },
        6 => {
            proof {
                reveal_strlit("chu");
            }
            ("chu", "ちゅ")
        },
        7 => {
            proof {
                reveal_strlit("cho");
            }
            ("cho", "ちょ")
        },
        8 => {
            proof {
                reveal_strlit("tsu");
            }
            ("tsu", "つ")
        },
        9 => {
            proof {
                reveal_strlit("kya");
            }
            ("kya", "きゃ")
        },
        10 => {
            proof {
                reveal_strlit("kyu");
            }
            ("kyu", "きゅ")
        },
        11 => {
            proof {
                reveal_strlit("kyo");
            }
            ("kyo", "きょ")
        },
        12 => {
            proof {
                reveal_strlit("gya");
            }
            ("gya", "ぎゃ")
        },
        13 => {
            proof {
                reveal_strlit("gyu");
            }
            ("gyu", "ぎゅ")
        },
        14 => {
            proof {
                reveal_strlit("gyo");
            }
            ("gyo", "ぎょ")
        },
        15 => {
            proof {
                reveal_strlit("nya");
            }
            ("nya", "にゃ")
        },
        16 => {
            proof {
                reveal_strlit("nyu");
            }
            ("nyu", "にゅ")
        },
        17 => {
            proof {
                reveal_strlit("nyo");
            }
            ("nyo", "にょ")
        },
        18 => {
            proof {
                reveal_strlit("hya");
            }
            ("hya", "ひゃ")
        },
        19 => {
            proof {
                reveal_strlit("hyu");
            }
            ("hyu", "ひゅ")
        },
        20 => {
            proof {
                reveal_strlit("hyo");
            }
            ("hyo", "ひょ")
        },
        21 => {
            proof {
                reveal_strlit("bya");
            }
            ("bya", "びゃ")
        },
        22 => {
            proof {
                reveal_strlit("byu");
            }
            ("byu", "びゅ")
        },
        23 => {
            proof {
                reveal_strlit("byo");
            }
            ("byo", "びょ")
        },
        24 => {
            proof {
                reveal_strlit("pya");
            }
            ("pya", "ぴゃ")
        },
        25 => {
            proof {
                reveal_strlit("pyu");
            }
            ("pyu", "ぴゅ")
        },
        26 => {
            proof {
                reveal_strlit("pyo");
            }
            ("pyo", "ぴょ")
        },
        27 => {
            proof {
                reveal_strlit("mya");
            }
            ("mya", "みゃ")
        },
        28 => {
            proof {
                reveal_strlit("myu");
            }
            ("myu", "みゅ")
        },
        29 => {
            proof {
                reveal_strlit("myo");
            }
            ("myo", "みょ")
        },
        30 => {
            proof {
                reveal_strlit("rya");
            }
            ("rya", "りゃ")
        },
        31 => {
            proof {
                reveal_strlit("ryu");
            }
            ("ryu", "りゅ")
        },
        32 => {
            proof {
                reveal_strlit("ryo");
            }
            ("ryo", "りょ")
        },
        33 => {
            proof {
                reveal_strlit("jya");
            }
            ("jya", "じゃ")
        },
        34 => {
            proof {
                reveal_strlit("jyu");
            }
            ("jyu", "じゅ")
        },
        35 => {
            proof {
                reveal_strlit("jyo");
            }
            ("jyo", "じょ")
        },
        36 => {
            proof {
                reveal_strlit("dya");
            }
            ("dya", "ぢゃ")
        },
        37 => {
            proof {
                reveal_strlit("dyu");
            }
            ("dyu", "ぢゅ")
        },
        38 => {
            proof {
                reveal_strlit("dyo");
            }
            ("dyo", "ぢょ")
        },
        39 => {
            proof {
                reveal_strlit("xya");
            }
            ("xya", "ゃ")
        },
        40 => {
            proof {
                reveal_strlit("xyu");
            }
            ("xyu", "ゅ")
        },
        41 => {
            proof {
                reveal_strlit("xyo");
            }
            ("xyo", "ょ")
        },
        42 => {
            proof {
                reveal_strlit("xtu");
            }
            ("xtu", "っ")
        },
        43 => {
            proof {
                reveal_strlit("xwa");
            }
            ("xwa", "ゎ")
        },
        44 => {
            proof {
                reveal_strlit("lya");
            }
            ("lya", "ゃ")
        },
        45 => {
            proof {
                reveal_strlit("lyu");
            }
            ("lyu", "ゅ")
        },
        46 => {
            proof {
                reveal_strlit("lyo");
            }
            ("lyo", "ょ")
        },
        47 => {
            proof {
                reveal_strlit("ltu");
            }
            ("ltu", "っ")
        },
        48 => {
            proof {
                reveal_strlit("lwa");
            }
            ("lwa", "ゎ")
        },
        49 => {
            proof {
                reveal_strlit("ka");
            }
            ("ka", "か")
        },
        50 => {
            proof {
                reveal_strlit("ki");
            }
            ("ki", "き")
        },
        51 => {
            proof {
                reveal_strlit("ku");
            }
            ("ku", "く")
        },
        52 => {
            proof {
                reveal_strlit("ke");
            }
            ("ke", "け")
        },
        53 => {
            proof {
                reveal_strlit("ko");
            }
            ("ko", "こ")
        },
        54 => {
            proof {
                reveal_strlit("sa");
            }
            ("sa", "さ")
        },
        55 => {
            proof {
                reveal_strlit("si");
            }
            ("si", "し")
        },
        56 => {
            proof {
                reveal_strlit("su");
            }
            ("su", "す")
        },
        57 => {
            proof {
                reveal_strlit("se");
            }
            ("se", "せ")
        },
        58 => {
            proof {
                reveal_strlit("so");
            }
            ("so", "そ")
        },
        59 => {
            proof {
                reveal_strlit("ta");
            }
            ("ta", "た")
        },
        60 => {
            proof {
                reveal_strlit("ti");
            }
            ("ti", "ち")
        },
        61 => {
            proof {
                reveal_strlit("tu");
            }
            ("tu", "つ")
        },
        62 => {
            proof {
                reveal_strlit("te");
            }
            ("te", "て")
        },
        63 => {
            proof {
                reveal_strlit("to");
            }
            ("to", "と")
        },
        64 => {
            proof {
                reveal_strlit("na");
            }
            ("na", "な")
        },
        65 => {
            proof {
                reveal_strlit("ni");
            }
            ("ni", "に")
        },
        66 => {
            proof {
                reveal_strlit("nu");
            }
            ("nu", "ぬ")
        },
        67 => {
            proof {
                reveal_strlit("ne");
            }
            ("ne", "ね")
        },
        68 => {
            proof {
                reveal_strlit("no");
            }
            ("no", "の")
        },
        69 => {
            proof {
                reveal_strlit("ha");
            }
            ("ha", "は")
        },
        70 => {
            proof {
                reveal_strlit("hi");
            }
            ("hi", "ひ")
        },
        71 => {
            proof {
                reveal_strlit("hu");
            }
            ("hu", "ふ")
        },
        72 => {
            proof {
                reveal_strlit("fu");
            }
            ("fu", "ふ")
        },
        73 => {
            proof {
                reveal_strlit("he");
            }
            ("he", "へ")
        },
        74 => {
            proof {
                reveal_strlit("ho");
            }
            ("ho", "ほ")
        },
        75 => {
            proof {
                reveal_strlit("ma");
            }
            ("ma", "ま")
        },
        76 => {
            proof {
                reveal_strlit("mi");
            }
            ("mi", "み")
        },
        77 => {
            proof {
                reveal_strlit("mu");
            }
            ("mu", "む")
        },
        78 => {
            proof {
                reveal_strlit("me");
            }
            ("me", "め")
        },
        79 => {
            proof {
                reveal_strlit("mo");
            }
            ("mo", "も")
        },
        80 => {
            proof {
                reveal_strlit("ya");
            }
            ("ya", "や")
        },
        81 => {
            proof {
                reveal_strlit("yu");
            }
            ("yu", "ゆ")
        },
        82 => {
            proof {
                reveal_strlit("yo");
            }
            ("yo", "よ")
        },
        83 => {
            proof {
                reveal_strlit("ra");
            }
            ("ra", "ら")
        },
        84 => {
            proof {
                reveal_strlit("ri");
            }
            ("ri", "り")
        },
        85 => {
            proof {
                reveal_strlit("ru");
            }
            ("ru", "る")
        },
        86 => {
            proof {
                reveal_strlit("re");
            }
            ("re", "れ")
        },
        87 => {
            proof {
                reveal_strlit("ro");
            }
            ("ro", "ろ")
        },
        88 => {
            proof {
                reveal_strlit("wa");
            }
            ("wa", "わ")
        },
        89 => {
            proof {
                reveal_strlit("wi");
            }
            ("wi", "ゐ")
        },
        90 => {
            proof {
                reveal_strlit("we");
            }
            ("we", "ゑ")
        },
        91 => {
            proof {
                reveal_strlit("wo");
            }
            ("wo", "を")
        },
        92 => {
            proof {
                reveal_strlit("ga");
            }
            ("ga", "が")
        },
        93 => {
            proof {
                reveal_strlit("gi");
            }
            ("gi", "ぎ")
        },
        94 => {
            proof {
                reveal_strlit("gu");
            }
            ("gu", "ぐ")
        },
        95 => {
            proof {
                reveal_strlit("ge");
            }
            ("ge", "げ")
        },
        96 => {
            proof {
                reveal_strlit("go");
            }
            ("go", "ご")
        },
        97 => {
            proof {
                reveal_strlit("za");
            }
            ("za", "ざ")
        },
        98 => {
            proof {
                reveal_strlit("zi");
            }
            ("zi", "じ")
        },
        99 => {
            proof {
                reveal_strlit("zu");
            }
            ("zu", "ず")
        },
        100 => {
            proof {
                reveal_strlit("ze");
            }
            ("ze", "ぜ")
        },
        101 => {
            proof {
                reveal_strlit("zo");
            }
            ("zo", "ぞ")
        },
        102 => {
            proof {
                reveal_strlit("da");
            }
            ("da", "だ")
        },
        103 => {
            proof {
                reveal_strlit("di");
            }
            ("di", "ぢ")
        },
        104 => {
            proof {
                reveal_strlit("du");
            }
            ("du", "づ")
        },
        105 => {
            proof {
                reveal_strlit("de");
            }
            ("de", "で")
        },
        106 => {
            proof {
                reveal_strlit("do");
            }
            ("do", "ど")
        },
        107 => {
            proof {
                reveal_strlit("ba");
            }
            ("ba", "ば")
        },
        108 => {
            proof {
                reveal_strlit("bi");
            }
            ("bi", "び")
        },
        109 => {
            proof {
                reveal_strlit("bu");
            }
            ("bu", "ぶ")
        },
        110 => {
            proof {
                reveal_strlit("be");
            }
            ("be", "べ")
        },
        111 => {
            proof {
                reveal_strlit("bo");
            }
            ("bo", "ぼ")
        },
        112 => {
            proof {
                reveal_strlit("pa");
            }
            ("pa", "ぱ")
        },
        113 => {
            proof {
                reveal_strlit("pi");
            }
            ("pi", "ぴ")
        },
        114 => {
            proof {
                reveal_strlit("pu");
            }
            ("pu", "ぷ")
        },
        115 => {
            proof {
                reveal_strlit("pe");
            }
            ("pe", "ぺ")
        },
        116 => {
            proof {
                reveal_strlit("po");
            }
            ("po", "ぽ")
        },
        117 => {
            proof {
                reveal_strlit("ja");
            }
            ("ja", "じゃ")
        },
        118 => {
            proof {
                reveal_strlit("ji");
            }
            ("ji", "じ")
        },
        119 => {
            proof {
                reveal_strlit("ju");
            }
            ("ju", "じゅ")
        },
        120 => {
            proof {
                reveal_strlit("jo");
            }
            ("jo", "じょ")
        },
        121 => {
            proof {
                reveal_strlit("fa");
            }
            ("fa", "ふぁ")
        },
        122 => {
            proof {
                reveal_strlit("fi");
            }
            ("fi", "ふぃ")
        },
        123 => {
            proof {
                reveal_strlit("fe");
            }
            ("fe", "ふぇ")
        },
        124 => {
            proof {
                reveal_strlit("fo");
            }
            ("fo", "ふぉ")
        },
        125 => {
            proof {
                reveal_strlit("va");
            }
            ("va", "ゔぁ")
        },
        126 => {
            proof {
                reveal_strlit("vi");
            }
            ("vi", "ゔぃ")
        },
        127 => {
            proof {
                reveal_strlit("vu");
            }
            ("vu", "ゔ")
        },
        128 => {
            proof {
                reveal_strlit("ve");
            }
            ("ve", "ゔぇ")
        },
        129 => {
            proof {
                reveal_strlit("vo");
            }
            ("vo", "ゔぉ")
        },
        130 => {
            proof {
                reveal_strlit("xa");
            }
            ("xa", "ぁ")
        },
        131 => {
            proof {
                reveal_strlit("xi");
            }
            ("xi", "ぃ")
        },
        132 => {
            proof {
                reveal_strlit("xu");
            }
            ("xu", "ぅ")
        },
        133 => {
            proof {
                reveal_strlit("xe");
            }
            ("xe", "ぇ")
        },
        134 => {
            proof {
                reveal_strlit("xo");
            }
            ("xo", "ぉ")
        },
        135 => {
            proof {
                reveal_strlit("la");
            }
            ("la", "ぁ")
        },
        136 => {
            proof {
                reveal_strlit("li");
            }
            ("li", "ぃ")
        },
        137 => {
            proof {
                reveal_strlit("lu");
            }
            ("lu", "ぅ")
        },
        138 => {
            proof {
                reveal_strlit("le");
            }
            ("le", "ぇ")
        },
        139 => {
            proof {
                reveal_strlit("lo");
            }
            ("lo", "ぉ")
        },
        140 => {
            proof {
                reveal_strlit("a");
            }
            ("a", "あ")
        },
        141 => {
            proof {
                reveal_strlit("i");
            }
            ("i", "い")
        },
        142 => {
            proof {
                reveal_strlit("u");
            }
            ("u", "う")
        },
        143 => {
            proof {
                reveal_strlit("e");
            }
            ("e", "え")
        },
        144 => {
            proof {
                reveal_strlit("o");
            }
            ("o", "お")
        },
        145 => {
            proof {
                reveal_strlit("-");
            }
            ("-", "ー")
        },
        146 => {
            proof {
                reveal_strlit(",");
            }
            (",", "、")
        },
        147 => {
            proof {
                reveal_strlit(".");
            }
            (".", "。")
        },
        _ => {
            proof {
                reveal_strlit("");
            }
            ("", "")
        },
    }
}

/// `b` is a proper prefix of `p`.
pub open spec fn is_strict_prefix(b: Seq<char>, p: Seq<char>) -> bool {
    b.len() < p.len() && p.subrange(0, b.len() as int) == b
}

/// Some pattern of the table strictly extends `b`: the tokenizer waits for more input.
pub open spec fn extends_some_rule(b: Seq<char>) -> bool {
    exists|i: int| 0 <= i < RULE_COUNT && #[trigger] is_strict_prefix(b, rule_pattern(i))
}

/// The kana of the last of the first `n` rules whose pattern is exactly `b`.
pub open spec fn exact_rule(b: Seq<char>, n: int) -> Option<Seq<char>>
    decreases n,
{
    if n <= 0 {
        None
    } else if rule_pattern(n - 1) == b {
        Some(rule_kana(n - 1))
    } else {
        exact_rule(b, n - 1)
    }
}

/// The kana that the whole table gives for exactly `b`, if any.
pub open spec fn kana_for(b: Seq<char>) -> Option<Seq<char>> {
    exact_rule(b, RULE_COUNT as int)
}

pub open spec fn is_vowel(c: char) -> bool {
    c == 'a' || c == 'i' || c == 'u' || c == 'e' || c == 'o'
}

/// Looks `buf` up once: wait while it is a strict prefix of a pattern, else emit
/// its kana, else emit it verbatim. Returns the new output and buffer.
pub open spec fn settle(out: Seq<char>, buf: Seq<char>) -> (Seq<char>, Seq<char>) {
    if extends_some_rule(buf) {
        (out, buf)
    } else {
        match kana_for(buf) {
            Some(k) => (out + k, Seq::empty()),
            None => (out + buf, Seq::empty()),
        }
    }
}

/// The buffer `buf` has just received a character: look it up, and when nothing
/// matches a buffer that starts with "n", confirm that "n" as "ん" and look up the
/// rest once more.
pub open spec fn resolve(out: Seq<char>, buf: Seq<char>) -> (Seq<char>, Seq<char>) {
    if extends_some_rule(buf) {
        (out, buf)
    } else {
        match kana_for(buf) {
            Some(k) => (out + k, Seq::empty()),
            None => if buf.len() >= 2 && buf[0] == 'n' {
                settle(out.push('ん'), buf.drop_first())
            } else {
                (out + buf, Seq::empty())
            },
        }
    }
}

/// One character `c` fed to the tokenizer whose confirmed output is `out` and
/// whose buffer is `buf`.
pub open spec fn step(out: Seq<char>, buf: Seq<char>, c: char) -> (Seq<char>, Seq<char>) {
    if buf == seq!['n'] && c == 'n' {
        (out.push('ん'), seq!['n'])
    } else if buf.len() == 1 && buf[0] == c && !is_vowel(c) {
        resolve(out.push('っ'), seq![c])
    } else {
        resolve(out, buf.push(c))
    }
}

/// The tokenizer run over `s` from an empty state: (confirmed kana, pending buffer).
pub open spec fn romaji_to_kana(s: Seq<char>) -> (Seq<char>, Seq<char>)
    decreases s.len(),
{
    if s.len() == 0 {
        (Seq::empty(), Seq::empty())
    } else {
        let prev = romaji_to_kana(s.drop_last());
        step(prev.0, prev.1, s.last())
    }
}

/// What `str::to_lowercase` returns for a string.
pub uninterp spec fn lowercase_of(s: Seq<char>) -> Seq<char>;

/// Relies on `str::to_lowercase`: the result depends on the characters alone.
#[verifier::external_body]
fn to_lowercase(s: &str) -> (r: String)
    ensures
        r@ == lowercase_of(s@),
{
    s.to_lowercase()
}

/// Outcome of one table lookup.
enum MatchResult {
    /// The buffer equals a pattern and no pattern extends it.
    Full(&'static str),
    /// Some pattern strictly extends the buffer.
    Partial,
    /// Neither.
    NoMatch,
}

/// `b` is a prefix of `p` (possibly equal to it).
fn is_prefix(b: &Vec<char>, p: &Vec<char>) -> (r: bool)
    ensures
        r == (b@.len() <= p@.len() && p@.subrange(0, b@.len() as int) == b@),
{
    if b.len() > p.len() {
        return false;
    }
    let mut i: usize = 0;
    while i < b.len()
        invariant
            b@.len() <= p@.len(),
            i <= b@.len(),
            p@.subrange(0, i as int) == b@.subrange(0, i as int),
        decreases b@.len() - i,
    {
        if b[i] != p[i] {
            assert(p@.subrange(0, b@.len() as int)[i as int] != b@[i as int]);
            return false;
        }
        assert(p@.subrange(0, i + 1) =~= b@.subrange(0, i + 1)) by {
            assert(p@.subrange(0, i as int) =~= b@.subrange(0, i as int));
        }
        i = i + 1;
    }
    assert(b@.subrange(0, b@.len() as int) =~= b@);
    true
}

/// Scans the whole table once for `buf`.
fn try_match(buf: &Vec<char>) -> (r: MatchResult)
    ensures
        match r {
            MatchResult::Partial => extends_some_rule(buf@),
            MatchResult::Full(k) => !extends_some_rule(buf@) && kana_for(buf@) == Some(k@),
            MatchResult::NoMatch => !extends_some_rule(buf@) && kana_for(buf@) is None,
        },
{
    let mut full: Option<&'static str> = None;
    let mut longer = false;
    let mut i: usize = 0;
    while i < RULE_COUNT
        invariant
            i <= RULE_COUNT,
            longer == exists|j: int| 0 <= j < i && #[trigger] is_strict_prefix(buf@, rule_pattern(j)),
            match full {
                Some(k) => exact_rule(buf@, i as int) == Some(k@),
                None => exact_rule(buf@, i as int) is None,
            },
        decreases RULE_COUNT - i,
    {
        let (pattern, kana) = rule_at(i);
        let p = chars_of(pattern);
        let prefix = is_prefix(buf, &p);
        if prefix && buf.len() == p.len() {
            assert(p@.subrange(0, buf@.len() as int) =~= p@);
            full = Some(kana);
        }
        proof {
            if rule_pattern(i as int) == buf@ {
                assert(p@.subrange(0, buf@.len() as int) =~= p@);
            }
        }
        let strict = prefix && buf.len() < p.len();
        assert(strict == is_strict_prefix(buf@, rule_pattern(i as int)));
        longer = longer || strict;
        i = i + 1;
    }
    if longer {
        MatchResult::Partial
    } else {
        match full {
            Some(k) => MatchResult::Full(k),
            None => MatchResult::NoMatch,
        }
    }
}

/// Executes `settle`.
fn settle_exec(out: &mut String, buf: &mut Vec<char>)
    ensures
        (final(out)@, final(buf)@) == settle(old(out)@, old(buf)@),
{
    match try_match(buf) {
        MatchResult::Full(k) => {
            push_str(out, k);
            buf.clear();
        },
        MatchResult::Partial => {},
        MatchResult::NoMatch => {
            push_chars(out, buf);
            buf.clear();
        },
    }
}

/// Executes `resolve`.
fn resolve_exec(out: &mut String, buf: &mut Vec<char>)
    ensures
        (final(out)@, final(buf)@) == resolve(old(out)@, old(buf)@),
{
    match try_match(buf) {
        MatchResult::Full(k) => {
            push_str(out, k);
            buf.clear();
        },
        MatchResult::Partial => {},
        MatchResult::NoMatch => {
            if buf.len() >= 2 && buf[0] == 'n' {
                push_char(out, 'ん');
                buf.remove(0);
                assert(buf@ == old(buf)@.drop_first());
                settle_exec(out, buf);
            } else {
                push_chars(out, buf);
                buf.clear();
            }
        },
    }
}

/// Executes `step`.
fn step_exec(out: &mut String, buf: &mut Vec<char>, c: char)
    ensures
        (final(out)@, final(buf)@) == step(old(out)@, old(buf)@, c),
{
    if buf.len() == 1 && buf[0] == 'n' && c == 'n' {
        assert(buf@ =~= seq!['n']);
        push_char(out, 'ん');
        return;
    }
    assert(!(buf@ == seq!['n'] && c == 'n')) by {
        if buf@ == seq!['n'] {
            assert(buf@.len() == 1 && buf@[0] == 'n');
        }
    }
    if buf.len() == 1 && buf[0] == c && c != 'a' && c != 'i' && c != 'u' && c != 'e' && c != 'o' {
        push_char(out, 'っ');
        buf.clear();
        buf.push(c);
        assert(buf@ =~= seq![c]);
        resolve_exec(out, buf);
    } else {
        buf.push(c);
        resolve_exec(out, buf);
    }
}

/// The result of a batch conversion.
#[derive(Debug, Clone, PartialEq, Eq)]
pub struct ConversionResult {
    /// Confirmed kana.
    pub output: String,
    /// Trailing romaji that is not resolved yet.
    pub pending: String,
}

/// Converts `input`, taken as already lower-case, through the tokenizer.
pub fn convert_lowered(input: &str) -> (r: ConversionResult)
    ensures
        (r.output@, r.pending@) == romaji_to_kana(input@),
{
    let chars = chars_of(input);
    let mut output = String::new();
    let mut buffer: Vec<char> = Vec::new();
    let mut i: usize = 0;
    while i < chars.len()
        invariant
            i <= chars@.len(),
            (output@, buffer@) == romaji_to_kana(chars@.subrange(0, i as int)),
        decreases chars@.len() - i,
    {
        let ghost prefix = chars@.subrange(0, i + 1);
        assert(prefix.drop_last() =~= chars@.subrange(0, i as int));
        step_exec(&mut output, &mut buffer, chars[i]);
        i = i + 1;
    }
    assert(chars@.subrange(0, chars@.len() as int) =~= chars@);
    let pending = string_from(&buffer);
    ConversionResult { output, pending }
}

/// Converts a whole romaji string to hiragana: the input is lower-cased, then fed
/// to the tokenizer one character at a time.
pub fn convert(input: &str) -> (r: ConversionResult)
    ensures
        (r.output@, r.pending@) == romaji_to_kana(lowercase_of(input@)),
{
    let lowered = to_lowercase(input);
    convert_lowered(lowered.as_str())
}

/// No pattern of the table begins with a doubled character (so none begins with "nn").
pub proof fn lemma_no_doubled_start(i: int)
    requires
        0 <= i < RULE_COUNT,
        rule_pattern(i).len() >= 2,
    ensures
        rule_pattern(i)[0] != rule_pattern(i)[1],
{
}

/// Every step leaves either an empty buffer or one that some pattern strictly extends.
pub proof fn lemma_step_buffer_waits(out: Seq<char>, buf: Seq<char>, c: char)
    ensures
        step(out, buf, c).1.len() == 0 || extends_some_rule(step(out, buf, c).1),
{
    if buf == seq!['n'] && c == 'n' {
        assert(rule_pattern(64) == seq!['n', 'a']);
        assert(rule_pattern(64).subrange(0, 1) =~= seq!['n']);
        assert(is_strict_prefix(seq!['n'], rule_pattern(64)));
    }
}

/// A step appends to the confirmed output and never rewrites it.
pub proof fn lemma_step_appends(out: Seq<char>, buf: Seq<char>, c: char)
    ensures
        step(out, buf, c).0 == out + step(Seq::empty(), buf, c).0,
        step(out, buf, c).1 == step(Seq::empty(), buf, c).1,
{
    let e = Seq::<char>::empty();
    assert(e + out =~= out);
    assert forall|o: Seq<char>, b: Seq<char>| #[trigger] settle(o, b).0 == o + settle(e, b).0
        && settle(o, b).1 == settle(e, b).1 by {
        assert(e + b =~= b);
        assert(o + b =~= o + (e + b));
        if let Some(k) = kana_for(b) {
            assert(e + k =~= k);
        }
    }
    assert forall|o: Seq<char>, b: Seq<char>| #[trigger] resolve(o, b).0 == o + resolve(e, b).0
        && resolve(o, b).1 == resolve(e, b).1 by {
        assert(e + b =~= b);
        assert(e.push('ん') =~= seq!['ん']);
        assert(o.push('ん') =~= o + seq!['ん']);
        let d = settle(seq!['ん'], b.drop_first()).0;
        assert(settle(o.push('ん'), b.drop_first()).0 == o.push('ん') + settle(e, b.drop_first()).0);
        assert(d == seq!['ん'] + settle(e, b.drop_first()).0);
        assert(o.push('ん') + settle(e, b.drop_first()).0 =~= o + (seq!['ん'] + settle(e, b.drop_first()).0));
        if let Some(k) = kana_for(b) {
            assert(e + k =~= k);
        }
    }
    assert(e.push('ん') =~= seq!['ん']);
    assert(out.push('ん') =~= out + seq!['ん']);
    assert(e.push('っ') =~= seq!['っ']);
    assert(out.push('っ') =~= out + seq!['っ']);
    let r = resolve(seq!['っ'], seq![c]);
    assert(resolve(out.push('っ'), seq![c]).0 == out.push('っ') + resolve(e, seq![c]).0);
    assert(r.0 == seq!['っ'] + resolve(e, seq![c]).0);
    assert(out.push('っ') + resolve(e, seq![c]).0 =~= out + (seq!['っ'] + resolve(e, seq![c]).0));
}

/// A buffer that some pattern strictly extends is rebuilt unchanged, with no
/// output, when its characters are fed from an empty state.
pub proof fn lemma_waiting_buffer_replays(q: Seq<char>)
    requires
        extends_some_rule(q),
    ensures
        romaji_to_kana(q) == (Seq::<char>::empty(), q),
    decreases q.len(),
{
    let i = choose|i: int| 0 <= i < RULE_COUNT && #[trigger] is_strict_prefix(q, rule_pattern(i));
    let p = rule_pattern(i);
    if q.len() == 0 {
        return;
    }
    let q0 = q.drop_last();
    let c = q.last();
    assert(q0.push(c) =~= q);
    if q0.len() == 0 {
        assert(romaji_to_kana(q0) == (Seq::<char>::empty(), Seq::<char>::empty()));
        assert(Seq::<char>::empty().push(c) =~= q);
    } else {
        assert(is_strict_prefix(q0, p)) by {
            assert(p.subrange(0, q0.len() as int) =~= q.subrange(0, q0.len() as int));
            assert(q.subrange(0, q0.len() as int) =~= q0);
        }
        lemma_waiting_buffer_replays(q0);
        if q0.len() == 1 {
            lemma_no_doubled_start(i);
            assert(p[0] == q[0] && p[1] == q[1]);
            assert(q0[0] != c);
            assert(q0 != seq!['n'] || c != 'n');
        }
    }
}

} // verus!
