//! The instance-configuration file format: a JSON object with the
//! instance's name, its ordered component list, and its launch overrides,
//! members in a fixed order and unset overrides written as `null`. Reading
//! back what was written reproduces the configuration exactly (see
//! `lemma_config_round_trip`).
//!
//! The reader ignores insignificant whitespace outside strings, so
//! pretty-printed documents read correctly; the members themselves must
//! stand in the order above (field-declaration order, which ordinary
//! serializers keep). Anything else is rejected rather than misread.
//!
//! Strings escape `"`, `\` and control characters; the reader also
//! accepts the other standard JSON escapes (`\/`, `\n`, `\t`, `\r`,
//! `\b`, `\f`, and `\uXXXX` for codes below 256).

use vstd::prelude::*;
use vstd::string::StrSliceExecFns;

use crate::hashing::HEX_DIGITS;
use crate::instance::{Component, InstanceConfig, InstanceLaunchConfig, RamAllocation};
use crate::strutil::{push_char, spec_dec, strs, u32_to_dec, DEC_DIGITS};

verus! {

/// The launch overrides as plain values: args, jvm_args, prelaunch and
/// postlaunch commands, allocation, java path.
pub open spec fn launch_v(l: InstanceLaunchConfig) -> (
    Option<Seq<Seq<char>>>,
    Option<Seq<Seq<char>>>,
    Option<Seq<char>>,
    Option<Seq<char>>,
    Option<(u32, u32)>,
    Option<Seq<char>>,
) {
    (
        (match l.args {
            Option::Some(v) => Option::Some(strs(v@)),
            Option::None => Option::None,
        }),
        (match l.jvm_args {
            Option::Some(v) => Option::Some(strs(v@)),
            Option::None => Option::None,
        }),
        (match l.prelaunch_command {
            Option::Some(s) => Option::Some(s@),
            Option::None => Option::None,
        }),
        (match l.postlaunch_command {
            Option::Some(s) => Option::Some(s@),
            Option::None => Option::None,
        }),
        (match l.allocation {
            Option::Some(a) => Option::Some((a.min, a.max)),
            Option::None => Option::None,
        }),
        (match l.javapath {
            Option::Some(s) => Option::Some(s@),
            Option::None => Option::None,
        }),
    )
}

pub open spec fn comp_view() -> spec_fn(Component) -> (Seq<char>, Seq<char>) {
    |c: Component| (c.id@, c.version@)
}

/// The whole configuration as plain values.
pub open spec fn config_v(c: InstanceConfig) -> (
    Seq<char>,
    Seq<(Seq<char>, Seq<char>)>,
    (
        Option<Seq<Seq<char>>>,
        Option<Seq<Seq<char>>>,
        Option<Seq<char>>,
        Option<Seq<char>>,
        Option<(u32, u32)>,
        Option<Seq<char>>,
    ),
) {
    (c.name@, c.components@.map_values(comp_view()), launch_v(c.launch))
}

// ---------------------------------------------------------------------
// Emission.
// ---------------------------------------------------------------------
/// What one character contributes to an escaped string body: quote and
/// backslash get their two-character escapes, control characters a
/// `\u00XX` escape, everything else is carried raw.
pub open spec fn spec_escape_char(c: char) -> Seq<char> {
    if c == '"' {
        seq!['\\', '"']
    } else if c == '\\' {
        seq!['\\', '\\']
    } else if c as u32 <= 31 {
        seq![
            '\\',
            'u',
            '0',
            '0',
            HEX_DIGITS[(c as u32 / 16) as int],
            HEX_DIGITS[(c as u32 % 16) as int],
        ]
    } else {
        seq![c]
    }
}

pub open spec fn spec_escape(s: Seq<char>) -> Seq<char>
    decreases s.len(),
{
    if s.len() == 0 {
        Seq::<char>::empty()
    } else {
        spec_escape_char(s[0]) + spec_escape(s.drop_first())
    }
}

/// A JSON string: quote, escaped body, quote.
pub open spec fn emit_str(v: Seq<char>) -> Seq<char> {
    seq!['"'] + spec_escape(v) + seq!['"']
}

/// An optional value: `null` when absent.
pub open spec fn null_text() -> Seq<char> {
    seq!['n', 'u', 'l', 'l']
}

pub open spec fn emit_opt_str(v: Option<Seq<char>>) -> Seq<char> {
    match v {
        Option::Some(s) => emit_str(s),
        Option::None => null_text(),
    }
}

/// A component object: `{"id":…,"version":…}`.
pub open spec fn emit_component(c: (Seq<char>, Seq<char>)) -> Seq<char> {
    seq!['{'] + emit_str("id"@) + seq![':'] + emit_str(c.0) + seq![','] + emit_str("version"@)
        + seq![':'] + emit_str(c.1) + seq!['}']
}

pub open spec fn emit_component_items(cs: Seq<(Seq<char>, Seq<char>)>) -> Seq<char>
    decreases cs.len(),
{
    if cs.len() == 0 {
        Seq::<char>::empty()
    } else if cs.len() == 1 {
        emit_component(cs[0])
    } else {
        emit_component(cs[0]) + seq![','] + emit_component_items(cs.drop_first())
    }
}

/// The component array.
pub open spec fn emit_components(cs: Seq<(Seq<char>, Seq<char>)>) -> Seq<char> {
    seq!['['] + emit_component_items(cs) + seq![']']
}

pub open spec fn emit_str_items(items: Seq<Seq<char>>) -> Seq<char>
    decreases items.len(),
{
    if items.len() == 0 {
        Seq::<char>::empty()
    } else if items.len() == 1 {
        emit_str(items[0])
    } else {
        emit_str(items[0]) + seq![','] + emit_str_items(items.drop_first())
    }
}

/// An array of strings.
pub open spec fn emit_str_array(items: Seq<Seq<char>>) -> Seq<char> {
    seq!['['] + emit_str_items(items) + seq![']']
}

pub open spec fn emit_opt_str_array(v: Option<Seq<Seq<char>>>) -> Seq<char> {
    match v {
        Option::Some(items) => emit_str_array(items),
        Option::None => null_text(),
    }
}

/// The allocation object: `{"min":…,"max":…}` with decimal numbers.
pub open spec fn emit_alloc(a: (u32, u32)) -> Seq<char> {
    seq!['{'] + emit_str("min"@) + seq![':'] + spec_dec(a.0 as nat) + seq![','] + emit_str("max"@)
        + seq![':'] + spec_dec(a.1 as nat) + seq!['}']
}

pub open spec fn emit_opt_alloc(v: Option<(u32, u32)>) -> Seq<char> {
    match v {
        Option::Some(a) => emit_alloc(a),
        Option::None => null_text(),
    }
}

/// The second half of the launch object, from `prelaunch_command` to the
/// closing brace.
pub open spec fn emit_launch_tail2(alloc: Option<(u32, u32)>, java: Option<Seq<char>>) -> Seq<
    char,
> {
    emit_str("allocation"@) + seq![':'] + emit_opt_alloc(alloc) + seq![','] + emit_str("javapath"@)
        + seq![':'] + emit_opt_str(java) + seq!['}']
}

pub open spec fn emit_launch_tail(
    pre: Option<Seq<char>>,
    post: Option<Seq<char>>,
    alloc: Option<(u32, u32)>,
    java: Option<Seq<char>>,
) -> Seq<char> {
    emit_str("prelaunch_command"@) + seq![':'] + emit_opt_str(pre) + seq![','] + emit_str(
        "postlaunch_command"@,
    ) + seq![':'] + emit_opt_str(post) + seq![','] + emit_launch_tail2(alloc, java)
}

/// The launch object: all six members, in fixed order, `null` when unset.
pub open spec fn emit_launch(
    l: (
        Option<Seq<Seq<char>>>,
        Option<Seq<Seq<char>>>,
        Option<Seq<char>>,
        Option<Seq<char>>,
        Option<(u32, u32)>,
        Option<Seq<char>>,
    ),
) -> Seq<char> {
    seq!['{'] + emit_str("args"@) + seq![':'] + emit_opt_str_array(l.0) + seq![','] + emit_str(
        "jvm_args"@,
    ) + seq![':'] + emit_opt_str_array(l.1) + seq![','] + emit_launch_tail(l.2, l.3, l.4, l.5)
}

/// The whole configuration document.
pub open spec fn emit_config(
    c: (
        Seq<char>,
        Seq<(Seq<char>, Seq<char>)>,
        (
            Option<Seq<Seq<char>>>,
            Option<Seq<Seq<char>>>,
            Option<Seq<char>>,
            Option<Seq<char>>,
            Option<(u32, u32)>,
            Option<Seq<char>>,
        ),
    ),
) -> Seq<char> {
    seq!['{'] + emit_str("name"@) + seq![':'] + emit_str(c.0) + seq![','] + emit_str("components"@)
        + seq![':'] + emit_components(c.1) + seq![','] + emit_str("launch"@) + seq![':']
        + emit_launch(c.2) + seq!['}']
}

// ---------------------------------------------------------------------
// Parsing. Each function consumes a prefix of its input and answers the
// parsed value with the number of characters consumed.
// ---------------------------------------------------------------------
/// The character a standard two-character escape denotes, if `e` is one.
pub open spec fn spec_two_char_escape(e: char) -> Option<char> {
    if e == '"' {
        Option::Some('"')
    } else if e == '\\' {
        Option::Some('\\')
    } else if e == '/' {
        Option::Some('/')
    } else if e == 'n' {
        Option::Some('\n')
    } else if e == 't' {
        Option::Some('\t')
    } else if e == 'r' {
        Option::Some('\r')
    } else if e == 'b' {
        Option::Some('\u{8}')
    } else if e == 'f' {
        Option::Some('\u{c}')
    } else {
        Option::None
    }
}

pub open spec fn spec_is_hex_digit(c: char) -> bool {
    ||| (48 <= c as u32 && c as u32 <= 57)
    ||| (97 <= c as u32 && c as u32 <= 102)
    ||| (65 <= c as u32 && c as u32 <= 70)
}

/// The value of one hex digit, either case.
pub open spec fn spec_hex_digit_val(c: char) -> nat {
    if 48 <= c as u32 && c as u32 <= 57 {
        (c as u32 - 48) as nat
    } else if 97 <= c as u32 && c as u32 <= 102 {
        (c as u32 - 87) as nat
    } else if 65 <= c as u32 && c as u32 <= 70 {
        (c as u32 - 55) as nat
    } else {
        0
    }
}

/// The code of a `\uXXXX` escape's four hex digits.
pub open spec fn spec_hex4_val(a: char, b: char, c: char, d: char) -> nat {
    ((spec_hex_digit_val(a) * 16 + spec_hex_digit_val(b)) * 16 + spec_hex_digit_val(c)) * 16
        + spec_hex_digit_val(d)
}

#[verifier::opaque]
pub open spec fn p_strbody(s: Seq<char>) -> Option<(Seq<char>, int)>
    decreases s.len(),
{
    if s.len() == 0 {
        Option::None
    } else if s[0] == '"' {
        Option::Some((Seq::<char>::empty(), 1))
    } else if s[0] == '\\' {
        if s.len() >= 2 && spec_two_char_escape(s[1]) is Some {
            match p_strbody(s.skip(2)) {
                Option::None => Option::None,
                Option::Some((v, n)) => Option::Some(
                    (seq![spec_two_char_escape(s[1])->Some_0] + v, n + 2),
                ),
            }
        } else if s.len() >= 6 && s[1] == 'u' && spec_is_hex_digit(s[2]) && spec_is_hex_digit(s[3])
            && spec_is_hex_digit(s[4]) && spec_is_hex_digit(s[5]) && spec_hex4_val(
            s[2],
            s[3],
            s[4],
            s[5],
        ) < 256 {
            match p_strbody(s.skip(6)) {
                Option::None => Option::None,
                Option::Some((v, n)) => Option::Some(
                    (
                        seq![((spec_hex4_val(s[2], s[3], s[4], s[5]) as u8) as char)] + v,
                        n + 6,
                    ),
                ),
            }
        } else {
            Option::None
        }
    } else {
        match p_strbody(s.skip(1)) {
            Option::None => Option::None,
            Option::Some((v, n)) => Option::Some((seq![s[0]] + v, n + 1)),
        }
    }
}

pub open spec fn p_str(s: Seq<char>) -> Option<(Seq<char>, int)> {
    if s.len() > 0 && s[0] == '"' {
        match p_strbody(s.skip(1)) {
            Option::None => Option::None,
            Option::Some((v, n)) => Option::Some((v, 1 + n)),
        }
    } else {
        Option::None
    }
}

pub open spec fn spec_is_digit(c: char) -> bool {
    48 <= c as u32 && c as u32 <= 57
}

/// The length of the maximal leading digit run.
pub open spec fn digit_run(s: Seq<char>) -> nat
    decreases s.len(),
{
    if s.len() > 0 && spec_is_digit(s[0]) {
        1 + digit_run(s.drop_first())
    } else {
        0
    }
}

/// The value of a digit string, most significant first.
pub open spec fn val_of(s: Seq<char>) -> nat
    decreases s.len(),
{
    if s.len() == 0 {
        0
    } else {
        val_of(s.drop_last()) * 10 + (if spec_is_digit(s.last()) {
            (s.last() as u32 - 48) as nat
        } else {
            0
        })
    }
}

pub open spec fn p_num(s: Seq<char>) -> Option<(nat, int)> {
    let r = digit_run(s) as int;
    if r == 0 {
        Option::None
    } else {
        Option::Some((val_of(s.take(r)), r))
    }
}

/// An expected single character at the front.
pub open spec fn p_char(s: Seq<char>, c: char) -> Option<int> {
    if s.len() > 0 && s[0] == c {
        Option::Some(1)
    } else {
        Option::None
    }
}

/// Whether the input starts with the four characters of `null`.
pub open spec fn starts_with_null(s: Seq<char>) -> bool {
    s.len() >= 4 && s[0] == 'n' && s[1] == 'u' && s[2] == 'l' && s[3] == 'l'
}

/// A member `"key":` at the front: the key must match exactly.
pub open spec fn p_key(s: Seq<char>, key: Seq<char>) -> Option<int> {
    match p_str(s) {
        Option::None => Option::None,
        Option::Some((k, n)) => {
            if k == key && n < s.len() && s[n] == ':' {
                Option::Some(n + 1)
            } else {
                Option::None
            }
        },
    }
}

pub open spec fn p_component(s: Seq<char>) -> Option<((Seq<char>, Seq<char>), int)> {
    match p_char(s, '{') {
        Option::None => Option::None,
        Option::Some(i1) => match p_key(s.skip(i1), "id"@) {
            Option::None => Option::None,
            Option::Some(n1) => match p_str(s.skip(i1 + n1)) {
                Option::None => Option::None,
                Option::Some((idv, n2)) => match p_char(s.skip(i1 + n1 + n2), ',') {
                    Option::None => Option::None,
                    Option::Some(i2) => match p_key(s.skip(i1 + n1 + n2 + i2), "version"@) {
                        Option::None => Option::None,
                        Option::Some(n3) => match p_str(s.skip(i1 + n1 + n2 + i2 + n3)) {
                            Option::None => Option::None,
                            Option::Some((vv, n4)) => match p_char(
                                s.skip(i1 + n1 + n2 + i2 + n3 + n4),
                                '}',
                            ) {
                                Option::None => Option::None,
                                Option::Some(i3) => Option::Some(
                                    ((idv, vv), i1 + n1 + n2 + i2 + n3 + n4 + i3),
                                ),
                            },
                        },
                    },
                },
            },
        },
    }
}

/// One or more components separated by commas, then `]`.
pub open spec fn p_component_list(s: Seq<char>) -> Option<(Seq<(Seq<char>, Seq<char>)>, int)>
    decreases s.len(),
{
    match p_component(s) {
        Option::None => Option::None,
        Option::Some((c, n)) => {
            if n <= 0 || n >= s.len() {
                Option::None
            } else if s[n] == ']' {
                Option::Some((seq![c], n + 1))
            } else if s[n] == ',' {
                match p_component_list(s.skip(n + 1)) {
                    Option::None => Option::None,
                    Option::Some((rest, m)) => Option::Some((seq![c] + rest, n + 1 + m)),
                }
            } else {
                Option::None
            }
        },
    }
}

pub open spec fn p_components(s: Seq<char>) -> Option<(Seq<(Seq<char>, Seq<char>)>, int)> {
    match p_char(s, '[') {
        Option::None => Option::None,
        Option::Some(i1) => {
            if s.len() >= 2 && s[1] == ']' {
                Option::Some((Seq::<(Seq<char>, Seq<char>)>::empty(), 2))
            } else {
                match p_component_list(s.skip(1)) {
                    Option::None => Option::None,
                    Option::Some((cs, n)) => Option::Some((cs, 1 + n)),
                }
            }
        },
    }
}

/// One or more strings separated by commas, then `]`.
pub open spec fn p_str_list(s: Seq<char>) -> Option<(Seq<Seq<char>>, int)>
    decreases s.len(),
{
    match p_str(s) {
        Option::None => Option::None,
        Option::Some((v, n)) => {
            if n <= 0 || n >= s.len() {
                Option::None
            } else if s[n] == ']' {
                Option::Some((seq![v], n + 1))
            } else if s[n] == ',' {
                match p_str_list(s.skip(n + 1)) {
                    Option::None => Option::None,
                    Option::Some((rest, m)) => Option::Some((seq![v] + rest, n + 1 + m)),
                }
            } else {
                Option::None
            }
        },
    }
}

pub open spec fn p_str_array(s: Seq<char>) -> Option<(Seq<Seq<char>>, int)> {
    match p_char(s, '[') {
        Option::None => Option::None,
        Option::Some(i1) => {
            if s.len() >= 2 && s[1] == ']' {
                Option::Some((Seq::<Seq<char>>::empty(), 2))
            } else {
                match p_str_list(s.skip(1)) {
                    Option::None => Option::None,
                    Option::Some((vs, n)) => Option::Some((vs, 1 + n)),
                }
            }
        },
    }
}

pub open spec fn p_opt_str_array(s: Seq<char>) -> Option<(Option<Seq<Seq<char>>>, int)> {
    if starts_with_null(s) {
        Option::Some((Option::None, 4))
    } else {
        match p_str_array(s) {
            Option::None => Option::None,
            Option::Some((vs, n)) => Option::Some((Option::Some(vs), n)),
        }
    }
}

pub open spec fn p_opt_str(s: Seq<char>) -> Option<(Option<Seq<char>>, int)> {
    if starts_with_null(s) {
        Option::Some((Option::None, 4))
    } else {
        match p_str(s) {
            Option::None => Option::None,
            Option::Some((v, n)) => Option::Some((Option::Some(v), n)),
        }
    }
}

pub open spec fn p_alloc(s: Seq<char>) -> Option<((u32, u32), int)> {
    match p_char(s, '{') {
        Option::None => Option::None,
        Option::Some(i1) => match p_key(s.skip(i1), "min"@) {
            Option::None => Option::None,
            Option::Some(n1) => match p_num(s.skip(i1 + n1)) {
                Option::None => Option::None,
                Option::Some((minv, n2)) => match p_char(s.skip(i1 + n1 + n2), ',') {
                    Option::None => Option::None,
                    Option::Some(i2) => match p_key(s.skip(i1 + n1 + n2 + i2), "max"@) {
                        Option::None => Option::None,
                        Option::Some(n3) => match p_num(s.skip(i1 + n1 + n2 + i2 + n3)) {
                            Option::None => Option::None,
                            Option::Some((maxv, n4)) => match p_char(
                                s.skip(i1 + n1 + n2 + i2 + n3 + n4),
                                '}',
                            ) {
                                Option::None => Option::None,
                                Option::Some(i3) => {
                                    if minv <= u32::MAX && maxv <= u32::MAX {
                                        Option::Some(
                                            (
                                                (minv as u32, maxv as u32),
                                                i1 + n1 + n2 + i2 + n3 + n4 + i3,
                                            ),
                                        )
                                    } else {
                                        Option::None
                                    }
                                },
                            },
                        },
                    },
                },
            },
        },
    }
}

pub open spec fn p_opt_alloc(s: Seq<char>) -> Option<(Option<(u32, u32)>, int)> {
    if starts_with_null(s) {
        Option::Some((Option::None, 4))
    } else {
        match p_alloc(s) {
            Option::None => Option::None,
            Option::Some((a, n)) => Option::Some((Option::Some(a), n)),
        }
    }
}

pub open spec fn p_launch(s: Seq<char>) -> Option<
    (
        (
            Option<Seq<Seq<char>>>,
            Option<Seq<Seq<char>>>,
            Option<Seq<char>>,
            Option<Seq<char>>,
            Option<(u32, u32)>,
            Option<Seq<char>>,
        ),
        int,
    ),
> {
    match p_char(s, '{') {
        Option::None => Option::None,
        Option::Some(a0) => match p_key(s.skip(a0), "args"@) {
            Option::None => Option::None,
            Option::Some(a1) => match p_opt_str_array(s.skip(a0 + a1)) {
                Option::None => Option::None,
                Option::Some((args, a2)) => match p_char(s.skip(a0 + a1 + a2), ',') {
                    Option::None => Option::None,
                    Option::Some(a3) => match p_key(s.skip(a0 + a1 + a2 + a3), "jvm_args"@) {
                        Option::None => Option::None,
                        Option::Some(a4) => match p_opt_str_array(s.skip(a0 + a1 + a2 + a3 + a4)) {
                            Option::None => Option::None,
                            Option::Some((jvm, a5)) => match p_char(
                                s.skip(a0 + a1 + a2 + a3 + a4 + a5),
                                ',',
                            ) {
                                Option::None => Option::None,
                                Option::Some(a6) => p_launch_tail(
                                    s,
                                    a0 + a1 + a2 + a3 + a4 + a5 + a6,
                                    args,
                                    jvm,
                                ),
                            },
                        },
                    },
                },
            },
        },
    }
}

/// The second half of the launch object, from `prelaunch_command` on.
pub open spec fn p_launch_tail(
    s: Seq<char>,
    base: int,
    args: Option<Seq<Seq<char>>>,
    jvm: Option<Seq<Seq<char>>>,
) -> Option<
    (
        (
            Option<Seq<Seq<char>>>,
            Option<Seq<Seq<char>>>,
            Option<Seq<char>>,
            Option<Seq<char>>,
            Option<(u32, u32)>,
            Option<Seq<char>>,
        ),
        int,
    ),
> {
    match p_key(s.skip(base), "prelaunch_command"@) {
        Option::None => Option::None,
        Option::Some(b1) => match p_opt_str(s.skip(base + b1)) {
            Option::None => Option::None,
            Option::Some((pre, b2)) => match p_char(s.skip(base + b1 + b2), ',') {
                Option::None => Option::None,
                Option::Some(b3) => match p_key(
                    s.skip(base + b1 + b2 + b3),
                    "postlaunch_command"@,
                ) {
                    Option::None => Option::None,
                    Option::Some(b4) => match p_opt_str(s.skip(base + b1 + b2 + b3 + b4)) {
                        Option::None => Option::None,
                        Option::Some((post, b5)) => match p_char(
                            s.skip(base + b1 + b2 + b3 + b4 + b5),
                            ',',
                        ) {
                            Option::None => Option::None,
                            Option::Some(b6) => p_launch_tail2(
                                s,
                                base + b1 + b2 + b3 + b4 + b5 + b6,
                                args,
                                jvm,
                                pre,
                                post,
                            ),
                        },
                    },
                },
            },
        },
    }
}

/// The last two members of the launch object and its closing brace.
pub open spec fn p_launch_tail2(
    s: Seq<char>,
    base: int,
    args: Option<Seq<Seq<char>>>,
    jvm: Option<Seq<Seq<char>>>,
    pre: Option<Seq<char>>,
    post: Option<Seq<char>>,
) -> Option<
    (
        (
            Option<Seq<Seq<char>>>,
            Option<Seq<Seq<char>>>,
            Option<Seq<char>>,
            Option<Seq<char>>,
            Option<(u32, u32)>,
            Option<Seq<char>>,
        ),
        int,
    ),
> {
    match p_key(s.skip(base), "allocation"@) {
        Option::None => Option::None,
        Option::Some(c1) => match p_opt_alloc(s.skip(base + c1)) {
            Option::None => Option::None,
            Option::Some((alloc, c2)) => match p_char(s.skip(base + c1 + c2), ',') {
                Option::None => Option::None,
                Option::Some(c3) => match p_key(s.skip(base + c1 + c2 + c3), "javapath"@) {
                    Option::None => Option::None,
                    Option::Some(c4) => match p_opt_str(s.skip(base + c1 + c2 + c3 + c4)) {
                        Option::None => Option::None,
                        Option::Some((java, c5)) => match p_char(
                            s.skip(base + c1 + c2 + c3 + c4 + c5),
                            '}',
                        ) {
                            Option::None => Option::None,
                            Option::Some(c6) => Option::Some(
                                (
                                    (args, jvm, pre, post, alloc, java),
                                    base + c1 + c2 + c3 + c4 + c5 + c6,
                                ),
                            ),
                        },
                    },
                },
            },
        },
    }
}

// ---------------------------------------------------------------------
// Parsing inverts emission.
// ---------------------------------------------------------------------
proof fn lemma_hex_digit_char(d: nat)
    requires
        d < 16,
    ensures
        spec_is_hex_digit(HEX_DIGITS[d as int]),
        spec_hex_digit_val(HEX_DIGITS[d as int]) == d,
{
    if d == 0 {
        assert(HEX_DIGITS[0] == '0');
    } else if d == 1 {
        assert(HEX_DIGITS[1] == '1');
    } else if d == 2 {
        assert(HEX_DIGITS[2] == '2');
    } else if d == 3 {
        assert(HEX_DIGITS[3] == '3');
    } else if d == 4 {
        assert(HEX_DIGITS[4] == '4');
    } else if d == 5 {
        assert(HEX_DIGITS[5] == '5');
    } else if d == 6 {
        assert(HEX_DIGITS[6] == '6');
    } else if d == 7 {
        assert(HEX_DIGITS[7] == '7');
    } else if d == 8 {
        assert(HEX_DIGITS[8] == '8');
    } else if d == 9 {
        assert(HEX_DIGITS[9] == '9');
    } else if d == 10 {
        assert(HEX_DIGITS[10] == 'a');
    } else if d == 11 {
        assert(HEX_DIGITS[11] == 'b');
    } else if d == 12 {
        assert(HEX_DIGITS[12] == 'c');
    } else if d == 13 {
        assert(HEX_DIGITS[13] == 'd');
    } else if d == 14 {
        assert(HEX_DIGITS[14] == 'e');
    } else {
        assert(HEX_DIGITS[15] == 'f');
    }
}

#[verifier::rlimit(100)]
#[verifier::spinoff_prover]
proof fn lemma_strbody_inverts(v: Seq<char>, rest: Seq<char>)
    ensures
        p_strbody(spec_escape(v) + seq!['"'] + rest) == Option::Some(
            (v, spec_escape(v).len() + 1 as int),
        ),
    decreases v.len(),
{
    reveal(p_strbody);
    let s = spec_escape(v) + seq!['"'] + rest;
    if v.len() == 0 {
        assert(spec_escape(v) =~= Seq::<char>::empty());
        assert(s[0] == '"');
        assert(v =~= Seq::<char>::empty());
    } else {
        let c = v[0];
        let tail = v.drop_first();
        lemma_strbody_inverts(tail, rest);
        if c == '"' {
            assert(s[0] == '\\' && s[1] == '"');
            assert(spec_two_char_escape(s[1]) == Option::Some('"'));
            assert(s.skip(2) =~= spec_escape(tail) + seq!['"'] + rest);
            assert(seq![spec_two_char_escape(s[1])->Some_0] + tail =~= v);
        } else if c == '\\' {
            assert(s[0] == '\\' && s[1] == '\\');
            assert(spec_two_char_escape(s[1]) == Option::Some('\\'));
            assert(s.skip(2) =~= spec_escape(tail) + seq!['"'] + rest);
            assert(seq![spec_two_char_escape(s[1])->Some_0] + tail =~= v);
        } else if c as u32 <= 31 {
            let hi = (c as u32 / 16) as nat;
            let lo = (c as u32 % 16) as nat;
            lemma_hex_digit_char(hi);
            lemma_hex_digit_char(lo);
            assert(s[0] == '\\' && s[1] == 'u' && s[2] == '0' && s[3] == '0' && s[4]
                == HEX_DIGITS[hi as int] && s[5] == HEX_DIGITS[lo as int]);
            assert(spec_two_char_escape('u') is None);
            assert(spec_hex_digit_val('0') == 0) by {
                assert('0' as u32 == 48);
            };
            assert(spec_is_hex_digit('0'));
            assert(spec_hex4_val(s[2], s[3], s[4], s[5]) == hi * 16 + lo);
            assert(hi * 16 + lo == c as u32) by {
                vstd::arithmetic::div_mod::lemma_fundamental_div_mod(c as u32 as int, 16);
            };
            let x = spec_hex4_val(s[2], s[3], s[4], s[5]);
            assert(x == c as u32);
            assert(x < 256);
            let z = (x as u8) as char;
            assert(z as u32 == c as u32);
            vstd::utf8::char_u32_cast(z, z as u32);
            vstd::utf8::char_u32_cast(c, c as u32);
            assert(z == c);
            assert(((spec_hex4_val(s[2], s[3], s[4], s[5]) as u8) as char) == c);
            assert(s.skip(6) =~= spec_escape(tail) + seq!['"'] + rest);
            assert(seq![((spec_hex4_val(s[2], s[3], s[4], s[5]) as u8) as char)] + tail =~= v);
        } else {
            assert(s[0] == c && c != '"' && c != '\\');
            assert(s.skip(1) =~= spec_escape(tail) + seq!['"'] + rest);
            assert(seq![s[0]] + tail =~= v);
        }
    }
}

proof fn lemma_str_inverts(v: Seq<char>, rest: Seq<char>)
    ensures
        p_str(emit_str(v) + rest) == Option::Some((v, emit_str(v).len() as int)),
{
    let s = emit_str(v) + rest;
    assert(s[0] == '"');
    assert(s.skip(1) =~= spec_escape(v) + seq!['"'] + rest);
    lemma_strbody_inverts(v, rest);
}

proof fn lemma_key_inverts(key: Seq<char>, rest: Seq<char>)
    ensures
        p_key(emit_str(key) + seq![':'] + rest, key) == Option::Some(
            emit_str(key).len() + 1 as int,
        ),
{
    let s = emit_str(key) + seq![':'] + rest;
    assert(s =~= emit_str(key) + (seq![':'] + rest));
    lemma_str_inverts(key, seq![':'] + rest);
    let n = emit_str(key).len() as int;
    assert(s[n] == ':');
}

proof fn lemma_dec_digit_char(d: nat)
    requires
        d < 10,
    ensures
        DEC_DIGITS[d as int] as u32 == 48 + d,
        spec_is_digit(DEC_DIGITS[d as int]),
{
    if d == 0 {
        assert(DEC_DIGITS[0] == '0');
    } else if d == 1 {
        assert(DEC_DIGITS[1] == '1');
    } else if d == 2 {
        assert(DEC_DIGITS[2] == '2');
    } else if d == 3 {
        assert(DEC_DIGITS[3] == '3');
    } else if d == 4 {
        assert(DEC_DIGITS[4] == '4');
    } else if d == 5 {
        assert(DEC_DIGITS[5] == '5');
    } else if d == 6 {
        assert(DEC_DIGITS[6] == '6');
    } else if d == 7 {
        assert(DEC_DIGITS[7] == '7');
    } else if d == 8 {
        assert(DEC_DIGITS[8] == '8');
    } else {
        assert(DEC_DIGITS[9] == '9');
    }
}

proof fn lemma_dec_all_digits(n: nat)
    ensures
        spec_dec(n).len() >= 1,
        forall|i: int| 0 <= i < spec_dec(n).len() ==> spec_is_digit(#[trigger] spec_dec(n)[i]),
    decreases n,
{
    if n < 10 {
        lemma_dec_digit_char(n);
    } else {
        lemma_dec_all_digits(n / 10);
        lemma_dec_digit_char(n % 10);
        assert forall|i: int| 0 <= i < spec_dec(n).len() implies spec_is_digit(
            #[trigger] spec_dec(n)[i],
        ) by {
            if i < spec_dec(n / 10).len() {
                assert(spec_dec(n)[i] == spec_dec(n / 10)[i]);
            } else {
                assert(spec_dec(n)[i] == DEC_DIGITS[(n % 10) as int]);
            }
        };
    }
}

proof fn lemma_digit_run_exact(a: Seq<char>, rest: Seq<char>)
    requires
        forall|i: int| 0 <= i < a.len() ==> spec_is_digit(#[trigger] a[i]),
        rest.len() == 0 || !spec_is_digit(rest[0]),
    ensures
        digit_run(a + rest) == a.len(),
    decreases a.len(),
{
    let s = a + rest;
    if a.len() == 0 {
        assert(s =~= rest);
    } else {
        assert(s[0] == a[0]);
        assert(s.drop_first() =~= a.drop_first() + rest);
        lemma_digit_run_exact(a.drop_first(), rest);
    }
}

proof fn lemma_val_of_dec(n: nat)
    ensures
        val_of(spec_dec(n)) == n,
    decreases n,
{
    if n < 10 {
        lemma_dec_digit_char(n);
        assert(spec_dec(n) == seq![DEC_DIGITS[n as int]]);
        assert(spec_dec(n).drop_last() =~= Seq::<char>::empty());
        assert(spec_dec(n).last() == DEC_DIGITS[n as int]);
        assert(val_of(Seq::<char>::empty()) == 0);
        assert(val_of(spec_dec(n)) == 0 * 10 + ((DEC_DIGITS[n as int] as u32 - 48) as nat));
    } else {
        lemma_val_of_dec(n / 10);
        lemma_dec_digit_char(n % 10);
        let d = spec_dec(n);
        assert(d == spec_dec(n / 10).push(DEC_DIGITS[(n % 10) as int]));
        assert(d.drop_last() =~= spec_dec(n / 10));
        assert(d.last() == DEC_DIGITS[(n % 10) as int]);
        assert(val_of(d) == (n / 10) * 10 + (n % 10));
        vstd::arithmetic::div_mod::lemma_fundamental_div_mod(n as int, 10);
    }
}

proof fn lemma_num_inverts(n: nat, rest: Seq<char>)
    requires
        rest.len() == 0 || !spec_is_digit(rest[0]),
    ensures
        p_num(spec_dec(n) + rest) == Option::Some((n, spec_dec(n).len() as int)),
{
    let s = spec_dec(n) + rest;
    lemma_dec_all_digits(n);
    lemma_digit_run_exact(spec_dec(n), rest);
    assert(s.take(spec_dec(n).len() as int) =~= spec_dec(n));
    lemma_val_of_dec(n);
}

proof fn lemma_component_inverts(c: (Seq<char>, Seq<char>), rest: Seq<char>)
    ensures
        p_component(emit_component(c) + rest) == Option::Some(
            (c, emit_component(c).len() as int),
        ),
{
    let s = emit_component(c) + rest;
    assert(s[0] == '{');
    let k1 = emit_str("id"@).len() + 1 as int;
    let v1 = emit_str(c.0).len() as int;
    let k2 = emit_str("version"@).len() + 1 as int;
    let v2 = emit_str(c.1).len() as int;
    assert(s.skip(1) =~= emit_str("id"@) + seq![':'] + (emit_str(c.0) + seq![','] + emit_str(
        "version"@,
    ) + seq![':'] + emit_str(c.1) + seq!['}'] + rest));
    lemma_key_inverts(
        "id"@,
        emit_str(c.0) + seq![','] + emit_str("version"@) + seq![':'] + emit_str(c.1) + seq!['}']
            + rest,
    );
    assert(s.skip(1 + k1) =~= emit_str(c.0) + (seq![','] + emit_str("version"@) + seq![':']
        + emit_str(c.1) + seq!['}'] + rest));
    lemma_str_inverts(
        c.0,
        seq![','] + emit_str("version"@) + seq![':'] + emit_str(c.1) + seq!['}'] + rest,
    );
    assert(s.skip(1 + k1 + v1)[0] == ',');
    assert(s.skip(1 + k1 + v1 + 1) =~= emit_str("version"@) + seq![':'] + (emit_str(c.1)
        + seq!['}'] + rest));
    lemma_key_inverts("version"@, emit_str(c.1) + seq!['}'] + rest);
    assert(s.skip(1 + k1 + v1 + 1 + k2) =~= emit_str(c.1) + (seq!['}'] + rest));
    lemma_str_inverts(c.1, seq!['}'] + rest);
    assert(s.skip(1 + k1 + v1 + 1 + k2 + v2)[0] == '}');
    assert(emit_component(c).len() == 1 + k1 + v1 + 1 + k2 + v2 + 1);
}

#[verifier::rlimit(100)]
#[verifier::spinoff_prover]
proof fn lemma_component_list_inverts(cs: Seq<(Seq<char>, Seq<char>)>, rest: Seq<char>)
    requires
        cs.len() >= 1,
    ensures
        p_component_list(emit_component_items(cs) + seq![']'] + rest) == Option::Some(
            (cs, emit_component_items(cs).len() + 1 as int),
        ),
    decreases cs.len(),
{
    let s = emit_component_items(cs) + seq![']'] + rest;
    if cs.len() == 1 {
        assert(s =~= emit_component(cs[0]) + (seq![']'] + rest));
        lemma_component_inverts(cs[0], seq![']'] + rest);
        let n = emit_component(cs[0]).len() as int;
        assert(s[n] == ']');
        assert(seq![cs[0]] =~= cs);
    } else {
        let tail = cs.drop_first();
        assert(s =~= emit_component(cs[0]) + (seq![','] + emit_component_items(tail) + seq![']']
            + rest));
        lemma_component_inverts(cs[0], seq![','] + emit_component_items(tail) + seq![']'] + rest);
        let n = emit_component(cs[0]).len() as int;
        assert(s[n] == ',');
        assert(s.skip(n + 1) =~= emit_component_items(tail) + seq![']'] + rest);
        lemma_component_list_inverts(tail, rest);
        assert(seq![cs[0]] + tail =~= cs);
    }
}

proof fn lemma_components_inverts(cs: Seq<(Seq<char>, Seq<char>)>, rest: Seq<char>)
    ensures
        p_components(emit_components(cs) + rest) == Option::Some(
            (cs, emit_components(cs).len() as int),
        ),
{
    let s = emit_components(cs) + rest;
    assert(s[0] == '[');
    if cs.len() == 0 {
        assert(emit_component_items(cs) =~= Seq::<char>::empty());
        assert(s[1] == ']');
        assert(cs =~= Seq::<(Seq<char>, Seq<char>)>::empty());
    } else {
        assert(emit_component_items(cs)[0] == '{') by {
            if cs.len() == 1 {
                assert(emit_component_items(cs) == emit_component(cs[0]));
            }
            assert(emit_component(cs[0])[0] == '{');
        };
        assert(s[1] == '{');
        assert(s.skip(1) =~= emit_component_items(cs) + seq![']'] + rest);
        lemma_component_list_inverts(cs, rest);
    }
}

proof fn lemma_str_list_inverts(items: Seq<Seq<char>>, rest: Seq<char>)
    requires
        items.len() >= 1,
    ensures
        p_str_list(emit_str_items(items) + seq![']'] + rest) == Option::Some(
            (items, emit_str_items(items).len() + 1 as int),
        ),
    decreases items.len(),
{
    let s = emit_str_items(items) + seq![']'] + rest;
    if items.len() == 1 {
        assert(s =~= emit_str(items[0]) + (seq![']'] + rest));
        lemma_str_inverts(items[0], seq![']'] + rest);
        let n = emit_str(items[0]).len() as int;
        assert(s[n] == ']');
        assert(seq![items[0]] =~= items);
    } else {
        let tail = items.drop_first();
        assert(s =~= emit_str(items[0]) + (seq![','] + emit_str_items(tail) + seq![']'] + rest));
        lemma_str_inverts(items[0], seq![','] + emit_str_items(tail) + seq![']'] + rest);
        let n = emit_str(items[0]).len() as int;
        assert(s[n] == ',');
        assert(s.skip(n + 1) =~= emit_str_items(tail) + seq![']'] + rest);
        lemma_str_list_inverts(tail, rest);
        assert(seq![items[0]] + tail =~= items);
    }
}

proof fn lemma_str_array_inverts(items: Seq<Seq<char>>, rest: Seq<char>)
    ensures
        p_str_array(emit_str_array(items) + rest) == Option::Some(
            (items, emit_str_array(items).len() as int),
        ),
{
    let s = emit_str_array(items) + rest;
    assert(s[0] == '[');
    if items.len() == 0 {
        assert(emit_str_items(items) =~= Seq::<char>::empty());
        assert(s[1] == ']');
        assert(items =~= Seq::<Seq<char>>::empty());
    } else {
        assert(emit_str_items(items)[0] == '"') by {
            if items.len() == 1 {
                assert(emit_str_items(items) == emit_str(items[0]));
            }
            assert(emit_str(items[0])[0] == '"');
        };
        assert(s[1] == '"');
        assert(s.skip(1) =~= emit_str_items(items) + seq![']'] + rest);
        lemma_str_list_inverts(items, rest);
    }
}

proof fn lemma_opt_str_array_inverts(v: Option<Seq<Seq<char>>>, rest: Seq<char>)
    ensures
        p_opt_str_array(emit_opt_str_array(v) + rest) == Option::Some(
            (v, emit_opt_str_array(v).len() as int),
        ),
{
    let s = emit_opt_str_array(v) + rest;
    match v {
        Option::None => {
            assert(s[0] == 'n' && s[1] == 'u' && s[2] == 'l' && s[3] == 'l');
            assert(starts_with_null(s));
        },
        Option::Some(items) => {
            assert(s[0] == '[');
            assert(!starts_with_null(s));
            lemma_str_array_inverts(items, rest);
        },
    }
}

proof fn lemma_opt_str_inverts(v: Option<Seq<char>>, rest: Seq<char>)
    ensures
        p_opt_str(emit_opt_str(v) + rest) == Option::Some((v, emit_opt_str(v).len() as int)),
{
    let s = emit_opt_str(v) + rest;
    match v {
        Option::None => {
            assert(s[0] == 'n' && s[1] == 'u' && s[2] == 'l' && s[3] == 'l');
            assert(starts_with_null(s));
        },
        Option::Some(sv) => {
            assert(s[0] == '"');
            assert(!starts_with_null(s));
            lemma_str_inverts(sv, rest);
        },
    }
}

#[verifier::rlimit(100)]
#[verifier::spinoff_prover]
proof fn lemma_alloc_inverts(a: (u32, u32), rest: Seq<char>)
    requires
        rest.len() == 0 || !spec_is_digit(rest[0]),
    ensures
        p_alloc(emit_alloc(a) + rest) == Option::Some((a, emit_alloc(a).len() as int)),
{
    let s = emit_alloc(a) + rest;
    assert(s[0] == '{');
    let k1 = emit_str("min"@).len() + 1 as int;
    let v1 = spec_dec(a.0 as nat).len() as int;
    let k2 = emit_str("max"@).len() + 1 as int;
    let v2 = spec_dec(a.1 as nat).len() as int;
    assert(s.skip(1) =~= emit_str("min"@) + seq![':'] + (spec_dec(a.0 as nat) + seq![',']
        + emit_str("max"@) + seq![':'] + spec_dec(a.1 as nat) + seq!['}'] + rest));
    lemma_key_inverts(
        "min"@,
        spec_dec(a.0 as nat) + seq![','] + emit_str("max"@) + seq![':'] + spec_dec(a.1 as nat)
            + seq!['}'] + rest,
    );
    assert(s.skip(1 + k1) =~= spec_dec(a.0 as nat) + (seq![','] + emit_str("max"@) + seq![':']
        + spec_dec(a.1 as nat) + seq!['}'] + rest));
    lemma_num_inverts(
        a.0 as nat,
        seq![','] + emit_str("max"@) + seq![':'] + spec_dec(a.1 as nat) + seq!['}'] + rest,
    );
    assert(s.skip(1 + k1 + v1)[0] == ',');
    assert(s.skip(1 + k1 + v1 + 1) =~= emit_str("max"@) + seq![':'] + (spec_dec(a.1 as nat)
        + seq!['}'] + rest));
    lemma_key_inverts("max"@, spec_dec(a.1 as nat) + seq!['}'] + rest);
    assert(s.skip(1 + k1 + v1 + 1 + k2) =~= spec_dec(a.1 as nat) + (seq!['}'] + rest));
    lemma_num_inverts(a.1 as nat, seq!['}'] + rest);
    assert(s.skip(1 + k1 + v1 + 1 + k2 + v2)[0] == '}');
    assert(emit_alloc(a).len() == 1 + k1 + v1 + 1 + k2 + v2 + 1);
}

proof fn lemma_opt_alloc_inverts(v: Option<(u32, u32)>, rest: Seq<char>)
    requires
        rest.len() == 0 || !spec_is_digit(rest[0]),
    ensures
        p_opt_alloc(emit_opt_alloc(v) + rest) == Option::Some(
            (v, emit_opt_alloc(v).len() as int),
        ),
{
    let s = emit_opt_alloc(v) + rest;
    match v {
        Option::None => {
            assert(s[0] == 'n' && s[1] == 'u' && s[2] == 'l' && s[3] == 'l');
            assert(starts_with_null(s));
        },
        Option::Some(a) => {
            assert(s[0] == '{');
            assert(!starts_with_null(s));
            lemma_alloc_inverts(a, rest);
        },
    }
}

#[verifier::rlimit(100)]
#[verifier::spinoff_prover]
proof fn lemma_launch_tail2_inverts(
    s: Seq<char>,
    base: int,
    args: Option<Seq<Seq<char>>>,
    jvm: Option<Seq<Seq<char>>>,
    pre: Option<Seq<char>>,
    post: Option<Seq<char>>,
    alloc: Option<(u32, u32)>,
    java: Option<Seq<char>>,
    rest: Seq<char>,
)
    requires
        0 <= base <= s.len(),
        s.skip(base) =~= emit_launch_tail2(alloc, java) + rest,
    ensures
        p_launch_tail2(s, base, args, jvm, pre, post) == Option::Some(
            ((args, jvm, pre, post, alloc, java), base + emit_launch_tail2(alloc, java).len()),
        ),
{
    let t = s.skip(base);
    let k3 = emit_str("allocation"@).len() + 1 as int;
    let v3 = emit_opt_alloc(alloc).len() as int;
    let k4 = emit_str("javapath"@).len() + 1 as int;
    let v4 = emit_opt_str(java).len() as int;
    assert(s.skip(base + k3) =~= t.skip(k3));
    assert(s.skip(base + (k3 + v3)) =~= t.skip(k3 + v3));
    assert(s.skip(base + (k3 + v3 + 1)) =~= t.skip(k3 + v3 + 1));
    assert(s.skip(base + (k3 + v3 + 1 + k4)) =~= t.skip(k3 + v3 + 1 + k4));
    assert(s.skip(base + (k3 + v3 + 1 + k4 + v4)) =~= t.skip(k3 + v3 + 1 + k4 + v4));
    assert(t =~= emit_str("allocation"@) + seq![':'] + (emit_opt_alloc(alloc) + seq![',']
        + emit_str("javapath"@) + seq![':'] + emit_opt_str(java) + seq!['}'] + rest));
    lemma_key_inverts(
        "allocation"@,
        emit_opt_alloc(alloc) + seq![','] + emit_str("javapath"@) + seq![':'] + emit_opt_str(java)
            + seq!['}'] + rest,
    );
    assert(t.skip(k3) =~= emit_opt_alloc(alloc) + (seq![','] + emit_str("javapath"@) + seq![':']
        + emit_opt_str(java) + seq!['}'] + rest));
    lemma_opt_alloc_inverts(
        alloc,
        seq![','] + emit_str("javapath"@) + seq![':'] + emit_opt_str(java) + seq!['}'] + rest,
    );
    assert(t.skip(k3 + v3)[0] == ',');
    assert(t.skip(k3 + v3 + 1) =~= emit_str("javapath"@) + seq![':'] + (emit_opt_str(java)
        + seq!['}'] + rest));
    lemma_key_inverts("javapath"@, emit_opt_str(java) + seq!['}'] + rest);
    assert(t.skip(k3 + v3 + 1 + k4) =~= emit_opt_str(java) + (seq!['}'] + rest));
    lemma_opt_str_inverts(java, seq!['}'] + rest);
    assert(t.skip(k3 + v3 + 1 + k4 + v4)[0] == '}');
    assert(emit_launch_tail2(alloc, java).len() == k3 + v3 + 1 + k4 + v4 + 1);
}

#[verifier::rlimit(100)]
#[verifier::spinoff_prover]
proof fn lemma_launch_tail_inverts(
    s: Seq<char>,
    base: int,
    args: Option<Seq<Seq<char>>>,
    jvm: Option<Seq<Seq<char>>>,
    pre: Option<Seq<char>>,
    post: Option<Seq<char>>,
    alloc: Option<(u32, u32)>,
    java: Option<Seq<char>>,
    rest: Seq<char>,
)
    requires
        0 <= base <= s.len(),
        s.skip(base) =~= emit_launch_tail(pre, post, alloc, java) + rest,
    ensures
        p_launch_tail(s, base, args, jvm) == Option::Some(
            (
                (args, jvm, pre, post, alloc, java),
                base + emit_launch_tail(pre, post, alloc, java).len(),
            ),
        ),
{
    let t = s.skip(base);
    let tail2 = emit_launch_tail2(alloc, java);
    let k1 = emit_str("prelaunch_command"@).len() + 1 as int;
    let v1 = emit_opt_str(pre).len() as int;
    let k2 = emit_str("postlaunch_command"@).len() + 1 as int;
    let v2 = emit_opt_str(post).len() as int;
    assert(s.skip(base + k1) =~= t.skip(k1));
    assert(s.skip(base + (k1 + v1)) =~= t.skip(k1 + v1));
    assert(s.skip(base + (k1 + v1 + 1)) =~= t.skip(k1 + v1 + 1));
    assert(s.skip(base + (k1 + v1 + 1 + k2)) =~= t.skip(k1 + v1 + 1 + k2));
    assert(s.skip(base + (k1 + v1 + 1 + k2 + v2)) =~= t.skip(k1 + v1 + 1 + k2 + v2));
    assert(s.skip(base + (k1 + v1 + 1 + k2 + v2 + 1)) =~= t.skip(k1 + v1 + 1 + k2 + v2 + 1));
    assert(t =~= emit_str("prelaunch_command"@) + seq![':'] + (emit_opt_str(pre) + seq![',']
        + emit_str("postlaunch_command"@) + seq![':'] + emit_opt_str(post) + seq![','] + tail2
        + rest));
    lemma_key_inverts(
        "prelaunch_command"@,
        emit_opt_str(pre) + seq![','] + emit_str("postlaunch_command"@) + seq![':'] + emit_opt_str(
            post,
        ) + seq![','] + tail2 + rest,
    );
    assert(t.skip(k1) =~= emit_opt_str(pre) + (seq![','] + emit_str("postlaunch_command"@)
        + seq![':'] + emit_opt_str(post) + seq![','] + tail2 + rest));
    lemma_opt_str_inverts(
        pre,
        seq![','] + emit_str("postlaunch_command"@) + seq![':'] + emit_opt_str(post) + seq![',']
            + tail2 + rest,
    );
    assert(t.skip(k1 + v1)[0] == ',');
    assert(t.skip(k1 + v1 + 1) =~= emit_str("postlaunch_command"@) + seq![':'] + (emit_opt_str(post)
        + seq![','] + tail2 + rest));
    lemma_key_inverts("postlaunch_command"@, emit_opt_str(post) + seq![','] + tail2 + rest);
    assert(t.skip(k1 + v1 + 1 + k2) =~= emit_opt_str(post) + (seq![','] + tail2 + rest));
    lemma_opt_str_inverts(post, seq![','] + tail2 + rest);
    assert(t.skip(k1 + v1 + 1 + k2 + v2)[0] == ',');
    let base2 = base + (k1 + v1 + 1 + k2 + v2 + 1);
    assert(s.skip(base2) =~= tail2 + rest);
    lemma_launch_tail2_inverts(s, base2, args, jvm, pre, post, alloc, java, rest);
    assert(emit_launch_tail(pre, post, alloc, java).len() == (k1 + v1 + 1 + k2 + v2 + 1)
        + tail2.len());
}

#[verifier::rlimit(100)]
#[verifier::spinoff_prover]
proof fn lemma_launch_inverts(
    l: (
        Option<Seq<Seq<char>>>,
        Option<Seq<Seq<char>>>,
        Option<Seq<char>>,
        Option<Seq<char>>,
        Option<(u32, u32)>,
        Option<Seq<char>>,
    ),
    rest: Seq<char>,
)
    ensures
        p_launch(emit_launch(l) + rest) == Option::Some((l, emit_launch(l).len() as int)),
{
    let s = emit_launch(l) + rest;
    assert(s[0] == '{');
    let k1 = emit_str("args"@).len() + 1 as int;
    let v1 = emit_opt_str_array(l.0).len() as int;
    let k2 = emit_str("jvm_args"@).len() + 1 as int;
    let v2 = emit_opt_str_array(l.1).len() as int;
    let tail = emit_launch_tail(l.2, l.3, l.4, l.5);
    assert(s.skip(1) =~= emit_str("args"@) + seq![':'] + (emit_opt_str_array(l.0) + seq![',']
        + emit_str("jvm_args"@) + seq![':'] + emit_opt_str_array(l.1) + seq![','] + tail + rest));
    lemma_key_inverts(
        "args"@,
        emit_opt_str_array(l.0) + seq![','] + emit_str("jvm_args"@) + seq![':']
            + emit_opt_str_array(l.1) + seq![','] + tail + rest,
    );
    assert(s.skip(1 + k1) =~= emit_opt_str_array(l.0) + (seq![','] + emit_str("jvm_args"@)
        + seq![':'] + emit_opt_str_array(l.1) + seq![','] + tail + rest));
    lemma_opt_str_array_inverts(
        l.0,
        seq![','] + emit_str("jvm_args"@) + seq![':'] + emit_opt_str_array(l.1) + seq![','] + tail
            + rest,
    );
    assert(s.skip(1 + k1 + v1)[0] == ',');
    assert(s.skip(1 + k1 + v1 + 1) =~= emit_str("jvm_args"@) + seq![':'] + (emit_opt_str_array(l.1)
        + seq![','] + tail + rest));
    lemma_key_inverts("jvm_args"@, emit_opt_str_array(l.1) + seq![','] + tail + rest);
    assert(s.skip(1 + k1 + v1 + 1 + k2) =~= emit_opt_str_array(l.1) + (seq![','] + tail + rest));
    lemma_opt_str_array_inverts(l.1, seq![','] + tail + rest);
    assert(s.skip(1 + k1 + v1 + 1 + k2 + v2)[0] == ',');
    let base = 1 + k1 + v1 + 1 + k2 + v2 + 1;
    assert(s.skip(base) =~= tail + rest);
    lemma_launch_tail_inverts(s, base, l.0, l.1, l.2, l.3, l.4, l.5, rest);
    assert((l.0, l.1, l.2, l.3, l.4, l.5) == l);
    assert(emit_launch(l).len() == base + tail.len());
}

/// Law: reading back a written configuration reproduces it exactly — the
/// name, the ordered component list, and every launch override.
#[verifier::rlimit(100)]
#[verifier::spinoff_prover]
pub proof fn lemma_config_round_trip(c: InstanceConfig)
    ensures
        p_config(emit_config(config_v(c))) == Option::Some(config_v(c)),
        p_config(spec_strip_ws(emit_config(config_v(c)))) == Option::Some(config_v(c)),
{
    lemma_strip_emit_config(config_v(c));
    let cv = config_v(c);
    let s = emit_config(cv);
    assert(s[0] == '{');
    let k1 = emit_str("name"@).len() + 1 as int;
    let v1 = emit_str(cv.0).len() as int;
    let k2 = emit_str("components"@).len() + 1 as int;
    let v2 = emit_components(cv.1).len() as int;
    let k3 = emit_str("launch"@).len() + 1 as int;
    let v3 = emit_launch(cv.2).len() as int;
    assert(s.skip(1) =~= emit_str("name"@) + seq![':'] + (emit_str(cv.0) + seq![','] + emit_str(
        "components"@,
    ) + seq![':'] + emit_components(cv.1) + seq![','] + emit_str("launch"@) + seq![':']
        + emit_launch(cv.2) + seq!['}']));
    lemma_key_inverts(
        "name"@,
        emit_str(cv.0) + seq![','] + emit_str("components"@) + seq![':'] + emit_components(cv.1)
            + seq![','] + emit_str("launch"@) + seq![':'] + emit_launch(cv.2) + seq!['}'],
    );
    assert(s.skip(1 + k1) =~= emit_str(cv.0) + (seq![','] + emit_str("components"@) + seq![':']
        + emit_components(cv.1) + seq![','] + emit_str("launch"@) + seq![':'] + emit_launch(cv.2)
        + seq!['}']));
    lemma_str_inverts(
        cv.0,
        seq![','] + emit_str("components"@) + seq![':'] + emit_components(cv.1) + seq![',']
            + emit_str("launch"@) + seq![':'] + emit_launch(cv.2) + seq!['}'],
    );
    assert(s.skip(1 + k1 + v1)[0] == ',');
    assert(s.skip(1 + k1 + v1 + 1) =~= emit_str("components"@) + seq![':'] + (emit_components(cv.1)
        + seq![','] + emit_str("launch"@) + seq![':'] + emit_launch(cv.2) + seq!['}']));
    lemma_key_inverts(
        "components"@,
        emit_components(cv.1) + seq![','] + emit_str("launch"@) + seq![':'] + emit_launch(cv.2)
            + seq!['}'],
    );
    assert(s.skip(1 + k1 + v1 + 1 + k2) =~= emit_components(cv.1) + (seq![','] + emit_str(
        "launch"@,
    ) + seq![':'] + emit_launch(cv.2) + seq!['}']));
    lemma_components_inverts(
        cv.1,
        seq![','] + emit_str("launch"@) + seq![':'] + emit_launch(cv.2) + seq!['}'],
    );
    assert(s.skip(1 + k1 + v1 + 1 + k2 + v2)[0] == ',');
    assert(s.skip(1 + k1 + v1 + 1 + k2 + v2 + 1) =~= emit_str("launch"@) + seq![':'] + (emit_launch(
        cv.2,
    ) + seq!['}']));
    lemma_key_inverts("launch"@, emit_launch(cv.2) + seq!['}']);
    assert(s.skip(1 + k1 + v1 + 1 + k2 + v2 + 1 + k3) =~= emit_launch(cv.2) + seq!['}']);
    lemma_launch_inverts(cv.2, seq!['}']);
    assert(s.skip(1 + k1 + v1 + 1 + k2 + v2 + 1 + k3 + v3)[0] == '}');
    assert(s.len() == 1 + k1 + v1 + 1 + k2 + v2 + 1 + k3 + v3 + 1);
}

/// The whole document; the entire input must be consumed.
pub open spec fn p_config(s: Seq<char>) -> Option<
    (
        Seq<char>,
        Seq<(Seq<char>, Seq<char>)>,
        (
            Option<Seq<Seq<char>>>,
            Option<Seq<Seq<char>>>,
            Option<Seq<char>>,
            Option<Seq<char>>,
            Option<(u32, u32)>,
            Option<Seq<char>>,
        ),
    ),
> {
    match p_char(s, '{') {
        Option::None => Option::None,
        Option::Some(a0) => match p_key(s.skip(a0), "name"@) {
            Option::None => Option::None,
            Option::Some(a1) => match p_str(s.skip(a0 + a1)) {
                Option::None => Option::None,
                Option::Some((name, a2)) => match p_char(s.skip(a0 + a1 + a2), ',') {
                    Option::None => Option::None,
                    Option::Some(a3) => match p_key(s.skip(a0 + a1 + a2 + a3), "components"@) {
                        Option::None => Option::None,
                        Option::Some(a4) => match p_components(s.skip(a0 + a1 + a2 + a3 + a4)) {
                            Option::None => Option::None,
                            Option::Some((comps, a5)) => match p_char(
                                s.skip(a0 + a1 + a2 + a3 + a4 + a5),
                                ',',
                            ) {
                                Option::None => Option::None,
                                Option::Some(a6) => match p_key(
                                    s.skip(a0 + a1 + a2 + a3 + a4 + a5 + a6),
                                    "launch"@,
                                ) {
                                    Option::None => Option::None,
                                    Option::Some(a7) => match p_launch(
                                        s.skip(a0 + a1 + a2 + a3 + a4 + a5 + a6 + a7),
                                    ) {
                                        Option::None => Option::None,
                                        Option::Some((l, a8)) => match p_char(
                                            s.skip(a0 + a1 + a2 + a3 + a4 + a5 + a6 + a7 + a8),
                                            '}',
                                        ) {
                                            Option::None => Option::None,
                                            Option::Some(a9) => {
                                                if a0 + a1 + a2 + a3 + a4 + a5 + a6 + a7 + a8 + a9
                                                    == s.len() {
                                                    Option::Some((name, comps, l))
                                                } else {
                                                    Option::None
                                                }
                                            },
                                        },
                                    },
                                },
                            },
                        },
                    },
                },
            },
        },
    }
}


// ---------------------------------------------------------------------
// The executable emitter.
// ---------------------------------------------------------------------
fn escape_from(s: &str, i: usize) -> (r: String)
    requires
        i <= s@.len(),
    ensures
        r@ =~= spec_escape(s@.skip(i as int)),
    decreases s@.len() - i,
{
    let n = s.unicode_len();
    if i == n {
        assert(s@.skip(i as int) =~= Seq::<char>::empty());
        String::new()
    } else {
        assert(s@.skip(i as int)[0] == s@[i as int]);
        assert(s@.skip(i as int).drop_first() =~= s@.skip(i as int + 1));
        let c = s.get_char(i);
        let rest = escape_from(s, i + 1);
        let mut out = String::new();
        let u = c as u32;
        if c == '"' {
            push_char(&mut out, '\\');
            push_char(&mut out, '"');
        } else if c == '\\' {
            push_char(&mut out, '\\');
            push_char(&mut out, '\\');
        } else if u <= 31 {
            push_char(&mut out, '\\');
            push_char(&mut out, 'u');
            push_char(&mut out, '0');
            push_char(&mut out, '0');
            push_char(&mut out, HEX_DIGITS[(u / 16) as usize]);
            push_char(&mut out, HEX_DIGITS[(u % 16) as usize]);
        } else {
            push_char(&mut out, c);
        }
        out.append(rest.as_str());
        out
    }
}

/// Writes a JSON string.
fn write_str(v: &str) -> (r: String)
    ensures
        r@ == emit_str(v@),
{
    let mut out = String::new();
    push_char(&mut out, '"');
    let body = escape_from(v, 0);
    assert(v@.skip(0) =~= v@);
    out.append(body.as_str());
    push_char(&mut out, '"');
    assert(out@ =~= emit_str(v@));
    out
}

fn write_component(c: &Component) -> (r: String)
    ensures
        r@ == emit_component((c.id@, c.version@)),
{
    let mut out = String::new();
    push_char(&mut out, '{');
    out.append(write_str("id").as_str());
    push_char(&mut out, ':');
    out.append(write_str(c.id.as_str()).as_str());
    push_char(&mut out, ',');
    out.append(write_str("version").as_str());
    push_char(&mut out, ':');
    out.append(write_str(c.version.as_str()).as_str());
    push_char(&mut out, '}');
    assert(out@ =~= emit_component((c.id@, c.version@)));
    out
}

fn write_component_items(cs: &Vec<Component>, i: usize) -> (r: String)
    requires
        i <= cs@.len(),
    ensures
        r@ =~= emit_component_items(cs@.map_values(comp_view()).skip(i as int)),
    decreases cs@.len() - i,
{
    let ghost m = cs@.map_values(comp_view());
    if i == cs.len() {
        assert(m.skip(i as int) =~= Seq::<(Seq<char>, Seq<char>)>::empty());
        String::new()
    } else if i + 1 == cs.len() {
        assert(m.skip(i as int) =~= seq![m[i as int]]);
        let r = write_component(&cs[i]);
        r
    } else {
        assert(m.skip(i as int)[0] == m[i as int]);
        assert(m.skip(i as int).drop_first() =~= m.skip(i as int + 1));
        assert(m.skip(i as int).len() >= 2);
        let mut out = write_component(&cs[i]);
        push_char(&mut out, ',');
        out.append(write_component_items(cs, i + 1).as_str());
        out
    }
}

fn write_components(cs: &Vec<Component>) -> (r: String)
    ensures
        r@ == emit_components(cs@.map_values(comp_view())),
{
    let mut out = String::new();
    push_char(&mut out, '[');
    out.append(write_component_items(cs, 0).as_str());
    assert(cs@.map_values(comp_view()).skip(0) =~= cs@.map_values(comp_view()));
    push_char(&mut out, ']');
    assert(out@ =~= emit_components(cs@.map_values(comp_view())));
    out
}

fn write_str_items(items: &Vec<String>, i: usize) -> (r: String)
    requires
        i <= items@.len(),
    ensures
        r@ =~= emit_str_items(strs(items@).skip(i as int)),
    decreases items@.len() - i,
{
    let ghost m = strs(items@);
    if i == items.len() {
        assert(m.skip(i as int) =~= Seq::<Seq<char>>::empty());
        String::new()
    } else if i + 1 == items.len() {
        assert(m.skip(i as int) =~= seq![m[i as int]]);
        write_str(items[i].as_str())
    } else {
        assert(m.skip(i as int)[0] == m[i as int]);
        assert(m.skip(i as int).drop_first() =~= m.skip(i as int + 1));
        assert(m.skip(i as int).len() >= 2);
        let mut out = write_str(items[i].as_str());
        push_char(&mut out, ',');
        out.append(write_str_items(items, i + 1).as_str());
        out
    }
}

fn write_str_array(items: &Vec<String>) -> (r: String)
    ensures
        r@ == emit_str_array(strs(items@)),
{
    let mut out = String::new();
    push_char(&mut out, '[');
    out.append(write_str_items(items, 0).as_str());
    assert(strs(items@).skip(0) =~= strs(items@));
    push_char(&mut out, ']');
    assert(out@ =~= emit_str_array(strs(items@)));
    out
}

fn write_opt_str(v: &Option<String>) -> (r: String)
    ensures
        r@ == emit_opt_str(
            match v {
                Option::Some(s) => Option::Some(s@),
                Option::None => Option::None,
            },
        ),
{
    match v {
        Option::Some(s) => write_str(s.as_str()),
        Option::None => {
            let r: String = "null".to_owned();
            proof {
                reveal_strlit("null");
            }
            assert(r@ =~= null_text());
            r
        },
    }
}

fn write_opt_str_array(v: &Option<Vec<String>>) -> (r: String)
    ensures
        r@ == emit_opt_str_array(
            match v {
                Option::Some(items) => Option::Some(strs(items@)),
                Option::None => Option::None,
            },
        ),
{
    match v {
        Option::Some(items) => write_str_array(items),
        Option::None => {
            let r: String = "null".to_owned();
            proof {
                reveal_strlit("null");
            }
            assert(r@ =~= null_text());
            r
        },
    }
}

fn write_opt_alloc(v: &Option<RamAllocation>) -> (r: String)
    ensures
        r@ == emit_opt_alloc(
            match v {
                Option::Some(a) => Option::Some((a.min, a.max)),
                Option::None => Option::None,
            },
        ),
{
    match v {
        Option::Some(a) => {
            let mut out = String::new();
            push_char(&mut out, '{');
            out.append(write_str("min").as_str());
            push_char(&mut out, ':');
            out.append(u32_to_dec(a.min).as_str());
            push_char(&mut out, ',');
            out.append(write_str("max").as_str());
            push_char(&mut out, ':');
            out.append(u32_to_dec(a.max).as_str());
            push_char(&mut out, '}');
            assert(out@ =~= emit_alloc((a.min, a.max)));
            out
        },
        Option::None => {
            let r: String = "null".to_owned();
            proof {
                reveal_strlit("null");
            }
            assert(r@ =~= null_text());
            r
        },
    }
}

fn write_launch_tail2(l: &InstanceLaunchConfig) -> (r: String)
    ensures
        r@ == emit_launch_tail2(launch_v(*l).4, launch_v(*l).5),
{
    let mut out = write_str("allocation");
    push_char(&mut out, ':');
    out.append(write_opt_alloc(&l.allocation).as_str());
    push_char(&mut out, ',');
    out.append(write_str("javapath").as_str());
    push_char(&mut out, ':');
    out.append(write_opt_str(&l.javapath).as_str());
    push_char(&mut out, '}');
    assert(out@ =~= emit_launch_tail2(launch_v(*l).4, launch_v(*l).5));
    out
}

fn write_launch_tail(l: &InstanceLaunchConfig) -> (r: String)
    ensures
        r@ == emit_launch_tail(launch_v(*l).2, launch_v(*l).3, launch_v(*l).4, launch_v(*l).5),
{
    let mut out = write_str("prelaunch_command");
    push_char(&mut out, ':');
    out.append(write_opt_str(&l.prelaunch_command).as_str());
    push_char(&mut out, ',');
    out.append(write_str("postlaunch_command").as_str());
    push_char(&mut out, ':');
    out.append(write_opt_str(&l.postlaunch_command).as_str());
    push_char(&mut out, ',');
    out.append(write_launch_tail2(l).as_str());
    assert(out@ =~= emit_launch_tail(
        launch_v(*l).2,
        launch_v(*l).3,
        launch_v(*l).4,
        launch_v(*l).5,
    ));
    out
}

fn write_launch(l: &InstanceLaunchConfig) -> (r: String)
    ensures
        r@ == emit_launch(launch_v(*l)),
{
    let mut out = String::new();
    push_char(&mut out, '{');
    out.append(write_str("args").as_str());
    push_char(&mut out, ':');
    out.append(write_opt_str_array(&l.args).as_str());
    push_char(&mut out, ',');
    out.append(write_str("jvm_args").as_str());
    push_char(&mut out, ':');
    out.append(write_opt_str_array(&l.jvm_args).as_str());
    push_char(&mut out, ',');
    out.append(write_launch_tail(l).as_str());
    assert(out@ =~= emit_launch(launch_v(*l)));
    out
}

#[verifier::rlimit(100)]
#[verifier::spinoff_prover]
pub fn write_config(c: &InstanceConfig) -> (r: String)
    ensures
        r@ == emit_config(config_v(*c)),
{
    let mut out = String::new();
    push_char(&mut out, '{');
    out.append(write_str("name").as_str());
    push_char(&mut out, ':');
    out.append(write_str(c.name.as_str()).as_str());
    push_char(&mut out, ',');
    out.append(write_str("components").as_str());
    push_char(&mut out, ':');
    out.append(write_components(&c.components).as_str());
    push_char(&mut out, ',');
    out.append(write_str("launch").as_str());
    push_char(&mut out, ':');
    out.append(write_launch(&c.launch).as_str());
    push_char(&mut out, '}');
    assert(out@ =~= emit_config(config_v(*c)));
    out
}


// ---------------------------------------------------------------------
// The executable reader.
// ---------------------------------------------------------------------
fn two_char_escape(e: char) -> (r: Option<char>)
    ensures
        r == spec_two_char_escape(e),
{
    if e == '"' {
        Option::Some('"')
    } else if e == '\\' {
        Option::Some('\\')
    } else if e == '/' {
        Option::Some('/')
    } else if e == 'n' {
        Option::Some('\n')
    } else if e == 't' {
        Option::Some('\t')
    } else if e == 'r' {
        Option::Some('\r')
    } else if e == 'b' {
        Option::Some('\u{8}')
    } else if e == 'f' {
        Option::Some('\u{c}')
    } else {
        Option::None
    }
}

fn hex_digit_val(c: char) -> (r: Option<u32>)
    ensures
        r is Some <==> spec_is_hex_digit(c),
        (match r {
            Option::Some(v) => v == spec_hex_digit_val(c) && v < 16,
            Option::None => true,
        }),
{
    let u = c as u32;
    if 48 <= u && u <= 57 {
        Option::Some(u - 48)
    } else if 97 <= u && u <= 102 {
        Option::Some(u - 87)
    } else if 65 <= u && u <= 70 {
        Option::Some(u - 55)
    } else {
        Option::None
    }
}

fn parse_strbody_from(s: &str, i: usize) -> (r: Option<(String, usize)>)
    requires
        i <= s@.len(),
    ensures
        (match r {
            Option::Some((v, n)) => p_strbody(s@.skip(i as int)) == Option::Some(
                (v@, n as int),
            ) && i + n <= s@.len(),
            Option::None => p_strbody(s@.skip(i as int)) is None,
        }),
    decreases s@.len() - i,
{
    proof {
        reveal(p_strbody);
    }
    let ghost t = s@.skip(i as int);
    let n = s.unicode_len();
    if i == n {
        assert(t =~= Seq::<char>::empty());
        return Option::None;
    }
    assert(t[0] == s@[i as int]);
    let c = s.get_char(i);
    if c == '"' {
        let out = String::new();
        assert(out@ =~= Seq::<char>::empty());
        return Option::Some((out, 1));
    }
    if c == '\\' {
        if i + 1 < n {
            assert(t.len() >= 2 && t[1] == s@[i as int + 1]);
            let c2 = s.get_char(i + 1);
            match two_char_escape(c2) {
                Option::Some(decoded) => {
                    assert(t.skip(2) =~= s@.skip(i as int + 2));
                    match parse_strbody_from(s, i + 2) {
                        Option::None => Option::None,
                        Option::Some((v, m)) => {
                            let mut out = String::new();
                            push_char(&mut out, decoded);
                            out.append(v.as_str());
                            assert(out@ =~= seq![spec_two_char_escape(t[1])->Some_0] + v@);
                            Option::Some((out, m + 2))
                        },
                    }
                },
                Option::None => {
                    if c2 == 'u' && n - i >= 6 {
                        assert(t.len() >= 6 && t[2] == s@[i as int + 2] && t[3] == s@[i as int + 3]
                            && t[4] == s@[i as int + 4] && t[5] == s@[i as int + 5]);
                        let h1 = hex_digit_val(s.get_char(i + 2));
                        let h2 = hex_digit_val(s.get_char(i + 3));
                        let h3 = hex_digit_val(s.get_char(i + 4));
                        let h4 = hex_digit_val(s.get_char(i + 5));
                        match (h1, h2, h3, h4) {
                            (
                                Option::Some(a),
                                Option::Some(b),
                                Option::Some(d3),
                                Option::Some(d4),
                            ) => {
                                let code = ((a * 16 + b) * 16 + d3) * 16 + d4;
                                if code < 256 {
                                    assert(t.skip(6) =~= s@.skip(i as int + 6));
                                    match parse_strbody_from(s, i + 6) {
                                        Option::None => Option::None,
                                        Option::Some((v, m)) => {
                                            let decoded = (code as u8) as char;
                                            let mut out = String::new();
                                            push_char(&mut out, decoded);
                                            out.append(v.as_str());
                                            assert(out@ =~= seq![
                                                ((spec_hex4_val(t[2], t[3], t[4], t[5]) as u8) as char),
                                            ] + v@);
                                            Option::Some((out, m + 6))
                                        },
                                    }
                                } else {
                                    Option::None
                                }
                            },
                            _ => Option::None,
                        }
                    } else {
                        proof {
                            if t.len() >= 6 {
                                assert(t[1] == s@[i as int + 1]);
                            }
                        }
                        Option::None
                    }
                },
            }
        } else {
            assert(t.len() < 2);
            Option::None
        }
    } else {
        assert(t.skip(1) =~= s@.skip(i as int + 1));
        assert(t.drop_first() =~= t.skip(1));
        match parse_strbody_from(s, i + 1) {
            Option::None => Option::None,
            Option::Some((v, m)) => {
                let mut out = String::new();
                push_char(&mut out, c);
                out.append(v.as_str());
                assert(out@ =~= seq![t[0]] + v@);
                Option::Some((out, m + 1))
            },
        }
    }
}

fn parse_str_from(s: &str, i: usize) -> (r: Option<(String, usize)>)
    requires
        i <= s@.len(),
    ensures
        (match r {
            Option::Some((v, n)) => p_str(s@.skip(i as int)) == Option::Some((v@, n as int)) && i
                + n <= s@.len(),
            Option::None => p_str(s@.skip(i as int)) is None,
        }),
{
    let ghost t = s@.skip(i as int);
    let n = s.unicode_len();
    if i < n && s.get_char(i) == '"' {
        assert(t[0] == s@[i as int]);
        assert(t.skip(1) =~= s@.skip(i as int + 1));
        match parse_strbody_from(s, i + 1) {
            Option::None => Option::None,
            Option::Some((v, m)) => Option::Some((v, m + 1)),
        }
    } else {
        proof {
            if t.len() > 0 {
                assert(t[0] == s@[i as int]);
            }
        }
        Option::None
    }
}

fn expect_char(s: &str, i: usize, c: char) -> (r: bool)
    requires
        i <= s@.len(),
    ensures
        r == (p_char(s@.skip(i as int), c) is Some),
        r ==> i + 1 <= s@.len(),
{
    let n = s.unicode_len();
    proof {
        if i < n {
            assert(s@.skip(i as int)[0] == s@[i as int]);
        }
    }
    i < n && s.get_char(i) == c
}

fn parse_key_from(s: &str, i: usize, key: &str) -> (r: Option<usize>)
    requires
        i <= s@.len(),
    ensures
        (match r {
            Option::Some(n) => p_key(s@.skip(i as int), key@) == Option::Some(n as int) && i + n
                <= s@.len(),
            Option::None => p_key(s@.skip(i as int), key@) is None,
        }),
{
    let ghost t = s@.skip(i as int);
    let total = s.unicode_len();
    assert(s@.len() == total as nat);
    match parse_str_from(s, i) {
        Option::None => Option::None,
        Option::Some((k, n)) => {
            if crate::strutil::str_eq(k.as_str(), key) && expect_char(s, i + n, ':') {
                assert(t.skip(n as int) =~= s@.skip(i as int + n as int));
                assert(t[n as int] == s@[i as int + n]);
                Option::Some(n + 1)
            } else {
                proof {
                    if n < t.len() {
                        assert(t[n as int] == s@[i as int + n]);
                    }
                }
                Option::None
            }
        },
    }
}

fn digit_run_from(s: &str, i: usize) -> (r: usize)
    requires
        i <= s@.len(),
    ensures
        r == digit_run(s@.skip(i as int)),
        i + r <= s@.len(),
        forall|k: int| 0 <= k < r ==> spec_is_digit(#[trigger] s@.skip(i as int)[k]),
    decreases s@.len() - i,
{
    let n = s.unicode_len();
    if i == n {
        assert(s@.skip(i as int) =~= Seq::<char>::empty());
        return 0;
    }
    assert(s@.skip(i as int)[0] == s@[i as int]);
    let c = s.get_char(i);
    let u = c as u32;
    if 48 <= u && u <= 57 {
        assert(s@.skip(i as int).drop_first() =~= s@.skip(i as int + 1));
        let rest = digit_run_from(s, i + 1);
        assert forall|k: int| 0 <= k < rest + 1 implies spec_is_digit(
            #[trigger] s@.skip(i as int)[k],
        ) by {
            if k > 0 {
                assert(s@.skip(i as int)[k] == s@.skip(i as int + 1)[k - 1]);
            }
        };
        rest + 1
    } else {
        0
    }
}

proof fn lemma_val_of_take_le(s: Seq<char>, j: int)
    requires
        0 <= j <= s.len(),
    ensures
        val_of(s.take(j)) <= val_of(s),
    decreases s.len(),
{
    if j < s.len() {
        assert(s.drop_last().take(j) =~= s.take(j));
        lemma_val_of_take_le(s.drop_last(), j);
    } else {
        assert(s.take(j) =~= s);
    }
}

fn parse_num_from(s: &str, i: usize) -> (r: Option<(u32, usize)>)
    requires
        i <= s@.len(),
    ensures
        (match r {
            Option::Some((v, n)) => p_num(s@.skip(i as int)) == Option::Some(
                (v as nat, n as int),
            ) && i + n <= s@.len(),
            Option::None => (match p_num(s@.skip(i as int)) {
                Option::None => true,
                Option::Some(p) => p.0 > u32::MAX,
            }),
        }),
{
    let ghost t = s@.skip(i as int);
    let total = s.unicode_len();
    assert(s@.len() == total as nat);
    let run = digit_run_from(s, i);
    if run == 0 {
        return Option::None;
    }
    let ghost digits = t.take(run as int);
    let mut acc: u32 = 0;
    let mut j: usize = 0;
    while j < run
        invariant
            s@.len() == total as nat,
            i + run <= s@.len(),
            run == digit_run(t),
            t == s@.skip(i as int),
            digits == t.take(run as int),
            forall|k: int| 0 <= k < run ==> spec_is_digit(#[trigger] t[k]),
            j <= run,
            acc as nat == val_of(digits.take(j as int)),
        decreases run - j,
    {
        assert(t[j as int] == s@[i as int + j]);
        let c = s.get_char(i + j);
        let d = (c as u32) - 48;
        assert(spec_is_digit(t[j as int]));
        assert(d <= 9);
        proof {
            assert(digits.take(j as int + 1).drop_last() =~= digits.take(j as int));
            assert(digits.take(j as int + 1).last() == t[j as int]);
        }
        let step = match acc.checked_mul(10) {
            Option::Some(m) => m.checked_add(d),
            Option::None => Option::None,
        };
        match step {
            Option::Some(next) => {
                acc = next;
            },
            Option::None => {
                proof {
                    assert(val_of(digits.take(j as int + 1)) > u32::MAX);
                    lemma_val_of_take_le(digits, j as int + 1);
                }
                return Option::None;
            },
        }
        j = j + 1;
    }
    assert(digits.take(run as int) =~= digits);
    Option::Some((acc, run))
}

fn starts_null(s: &str, i: usize) -> (r: bool)
    requires
        i <= s@.len(),
    ensures
        r == starts_with_null(s@.skip(i as int)),
        r ==> i + 4 <= s@.len(),
{
    let ghost t = s@.skip(i as int);
    let n = s.unicode_len();
    if n < 4 || i > n - 4 {
        assert(t.len() < 4);
        return false;
    }
    assert(t[0] == s@[i as int] && t[1] == s@[i as int + 1] && t[2] == s@[i as int + 2] && t[3]
        == s@[i as int + 3]);
    s.get_char(i) == 'n' && s.get_char(i + 1) == 'u' && s.get_char(i + 2) == 'l' && s.get_char(
        i + 3,
    ) == 'l'
}

fn parse_component_from(s: &str, i: usize) -> (r: Option<(Component, usize)>)
    requires
        i <= s@.len(),
    ensures
        (match r {
            Option::Some((c, n)) => p_component(s@.skip(i as int)) == Option::Some(
                ((c.id@, c.version@), n as int),
            ) && i + n <= s@.len(),
            Option::None => p_component(s@.skip(i as int)) is None,
        }),
{
    let ghost t = s@.skip(i as int);
    let total = s.unicode_len();
    assert(s@.len() == total as nat);
    if !expect_char(s, i, '{') {
        return Option::None;
    }
    assert(t.skip(1) =~= s@.skip(i as int + 1));
    let n1 = match parse_key_from(s, i + 1, "id") {
        Option::None => {
            return Option::None;
        },
        Option::Some(n) => n,
    };
    assert(t.skip(1 + n1 as int) =~= s@.skip(i as int + 1 + n1 as int));
    let (idv, n2) = match parse_str_from(s, i + 1 + n1) {
        Option::None => {
            return Option::None;
        },
        Option::Some(p) => p,
    };
    assert(t.skip(1 + n1 as int + n2 as int) =~= s@.skip(i as int + 1 + n1 as int + n2 as int));
    if !expect_char(s, i + 1 + n1 + n2, ',') {
        return Option::None;
    }
    assert(t.skip(1 + n1 as int + n2 as int + 1) =~= s@.skip(
        i as int + 1 + n1 as int + n2 as int + 1,
    ));
    let n3 = match parse_key_from(s, i + 1 + n1 + n2 + 1, "version") {
        Option::None => {
            return Option::None;
        },
        Option::Some(n) => n,
    };
    assert(t.skip(1 + n1 as int + n2 as int + 1 + n3 as int) =~= s@.skip(
        i as int + 1 + n1 as int + n2 as int + 1 + n3 as int,
    ));
    let (vv, n4) = match parse_str_from(s, i + 1 + n1 + n2 + 1 + n3) {
        Option::None => {
            return Option::None;
        },
        Option::Some(p) => p,
    };
    assert(t.skip(1 + n1 as int + n2 as int + 1 + n3 as int + n4 as int) =~= s@.skip(
        i as int + 1 + n1 as int + n2 as int + 1 + n3 as int + n4 as int,
    ));
    if !expect_char(s, i + 1 + n1 + n2 + 1 + n3 + n4, '}') {
        return Option::None;
    }
    Option::Some((Component { id: idv, version: vv }, 1 + n1 + n2 + 1 + n3 + n4 + 1))
}

fn parse_component_list_from(s: &str, i: usize) -> (r: Option<(Vec<Component>, usize)>)
    requires
        i <= s@.len(),
    ensures
        (match r {
            Option::Some((cs, n)) => p_component_list(s@.skip(i as int)) == Option::Some(
                (cs@.map_values(comp_view()), n as int),
            ) && i + n <= s@.len(),
            Option::None => p_component_list(s@.skip(i as int)) is None,
        }),
    decreases s@.len() - i,
{
    let ghost t = s@.skip(i as int);
    let (c, n) = match parse_component_from(s, i) {
        Option::None => {
            return Option::None;
        },
        Option::Some(p) => p,
    };
    let len = s.unicode_len();
    if n == 0 || i + n >= len {
        return Option::None;
    }
    assert(t[n as int] == s@[i as int + n]);
    let sep = s.get_char(i + n);
    if sep == ']' {
        let mut cs: Vec<Component> = Vec::new();
        cs.push(c);
        assert(cs@.map_values(comp_view()) =~= seq![(cs@[0].id@, cs@[0].version@)]);
        Option::Some((cs, n + 1))
    } else if sep == ',' {
        assert(t.skip(n as int + 1) =~= s@.skip(i as int + n as int + 1));
        match parse_component_list_from(s, i + n + 1) {
            Option::None => Option::None,
            Option::Some((mut rest, m)) => {
                let ghost before = rest@;
                rest.insert(0, c);
                assert(rest@.map_values(comp_view()) =~~= seq![(rest@[0].id@, rest@[0].version@)]
                    + before.map_values(comp_view()));
                Option::Some((rest, n + 1 + m))
            },
        }
    } else {
        Option::None
    }
}

fn parse_components_from(s: &str, i: usize) -> (r: Option<(Vec<Component>, usize)>)
    requires
        i <= s@.len(),
    ensures
        (match r {
            Option::Some((cs, n)) => p_components(s@.skip(i as int)) == Option::Some(
                (cs@.map_values(comp_view()), n as int),
            ) && i + n <= s@.len(),
            Option::None => p_components(s@.skip(i as int)) is None,
        }),
{
    let ghost t = s@.skip(i as int);
    if !expect_char(s, i, '[') {
        return Option::None;
    }
    let len = s.unicode_len();
    if i + 1 < len && s.get_char(i + 1) == ']' {
        assert(t.len() >= 2 && t[1] == s@[i as int + 1]);
        let cs: Vec<Component> = Vec::new();
        assert(cs@.map_values(comp_view()) =~= Seq::<(Seq<char>, Seq<char>)>::empty());
        return Option::Some((cs, 2));
    }
    proof {
        if t.len() >= 2 {
            assert(t[1] == s@[i as int + 1]);
        }
    }
    assert(t.skip(1) =~= s@.skip(i as int + 1));
    match parse_component_list_from(s, i + 1) {
        Option::None => Option::None,
        Option::Some((cs, n)) => Option::Some((cs, n + 1)),
    }
}

fn parse_str_list_from(s: &str, i: usize) -> (r: Option<(Vec<String>, usize)>)
    requires
        i <= s@.len(),
    ensures
        (match r {
            Option::Some((vs, n)) => p_str_list(s@.skip(i as int)) == Option::Some(
                (strs(vs@), n as int),
            ) && i + n <= s@.len(),
            Option::None => p_str_list(s@.skip(i as int)) is None,
        }),
    decreases s@.len() - i,
{
    let ghost t = s@.skip(i as int);
    let (v, n) = match parse_str_from(s, i) {
        Option::None => {
            return Option::None;
        },
        Option::Some(p) => p,
    };
    let len = s.unicode_len();
    if n == 0 || i + n >= len {
        return Option::None;
    }
    assert(t[n as int] == s@[i as int + n]);
    let sep = s.get_char(i + n);
    if sep == ']' {
        let mut vs: Vec<String> = Vec::new();
        vs.push(v);
        assert(strs(vs@) =~= seq![vs@[0]@]);
        Option::Some((vs, n + 1))
    } else if sep == ',' {
        assert(t.skip(n as int + 1) =~= s@.skip(i as int + n as int + 1));
        match parse_str_list_from(s, i + n + 1) {
            Option::None => Option::None,
            Option::Some((mut rest, m)) => {
                let ghost before = rest@;
                rest.insert(0, v);
                assert(strs(rest@) =~~= seq![rest@[0]@] + strs(before));
                Option::Some((rest, n + 1 + m))
            },
        }
    } else {
        Option::None
    }
}

fn parse_str_array_from(s: &str, i: usize) -> (r: Option<(Vec<String>, usize)>)
    requires
        i <= s@.len(),
    ensures
        (match r {
            Option::Some((vs, n)) => p_str_array(s@.skip(i as int)) == Option::Some(
                (strs(vs@), n as int),
            ) && i + n <= s@.len(),
            Option::None => p_str_array(s@.skip(i as int)) is None,
        }),
{
    let ghost t = s@.skip(i as int);
    if !expect_char(s, i, '[') {
        return Option::None;
    }
    let len = s.unicode_len();
    if i + 1 < len && s.get_char(i + 1) == ']' {
        assert(t.len() >= 2 && t[1] == s@[i as int + 1]);
        let vs: Vec<String> = Vec::new();
        assert(strs(vs@) =~= Seq::<Seq<char>>::empty());
        return Option::Some((vs, 2));
    }
    proof {
        if t.len() >= 2 {
            assert(t[1] == s@[i as int + 1]);
        }
    }
    assert(t.skip(1) =~= s@.skip(i as int + 1));
    match parse_str_list_from(s, i + 1) {
        Option::None => Option::None,
        Option::Some((vs, n)) => Option::Some((vs, n + 1)),
    }
}

fn parse_opt_str_array_from(s: &str, i: usize) -> (r: Option<(Option<Vec<String>>, usize)>)
    requires
        i <= s@.len(),
    ensures
        (match r {
            Option::Some((v, n)) => p_opt_str_array(s@.skip(i as int)) == Option::Some(
                (
                    (match v {
                        Option::Some(items) => Option::Some(strs(items@)),
                        Option::None => Option::<Seq<Seq<char>>>::None,
                    }),
                    n as int,
                ),
            ) && i + n <= s@.len(),
            Option::None => p_opt_str_array(s@.skip(i as int)) is None,
        }),
{
    if starts_null(s, i) {
        Option::Some((Option::None, 4))
    } else {
        match parse_str_array_from(s, i) {
            Option::None => Option::None,
            Option::Some((vs, n)) => Option::Some((Option::Some(vs), n)),
        }
    }
}

fn parse_opt_str_from(s: &str, i: usize) -> (r: Option<(Option<String>, usize)>)
    requires
        i <= s@.len(),
    ensures
        (match r {
            Option::Some((v, n)) => p_opt_str(s@.skip(i as int)) == Option::Some(
                (
                    (match v {
                        Option::Some(sv) => Option::Some(sv@),
                        Option::None => Option::<Seq<char>>::None,
                    }),
                    n as int,
                ),
            ) && i + n <= s@.len(),
            Option::None => p_opt_str(s@.skip(i as int)) is None,
        }),
{
    if starts_null(s, i) {
        Option::Some((Option::None, 4))
    } else {
        match parse_str_from(s, i) {
            Option::None => Option::None,
            Option::Some((v, n)) => Option::Some((Option::Some(v), n)),
        }
    }
}

fn parse_alloc_from(s: &str, i: usize) -> (r: Option<(RamAllocation, usize)>)
    requires
        i <= s@.len(),
    ensures
        (match r {
            Option::Some((a, n)) => p_alloc(s@.skip(i as int)) == Option::Some(
                ((a.min, a.max), n as int),
            ) && i + n <= s@.len(),
            Option::None => p_alloc(s@.skip(i as int)) is None,
        }),
{
    let ghost t = s@.skip(i as int);
    let total = s.unicode_len();
    assert(s@.len() == total as nat);
    if !expect_char(s, i, '{') {
        return Option::None;
    }
    assert(t.skip(1) =~= s@.skip(i as int + 1));
    let n1 = match parse_key_from(s, i + 1, "min") {
        Option::None => {
            return Option::None;
        },
        Option::Some(n) => n,
    };
    assert(t.skip(1 + n1 as int) =~= s@.skip(i as int + 1 + n1 as int));
    let (minv, n2) = match parse_num_from(s, i + 1 + n1) {
        Option::None => {
            return Option::None;
        },
        Option::Some(p) => p,
    };
    assert(t.skip(1 + n1 as int + n2 as int) =~= s@.skip(i as int + 1 + n1 as int + n2 as int));
    if !expect_char(s, i + 1 + n1 + n2, ',') {
        return Option::None;
    }
    assert(t.skip(1 + n1 as int + n2 as int + 1) =~= s@.skip(
        i as int + 1 + n1 as int + n2 as int + 1,
    ));
    let n3 = match parse_key_from(s, i + 1 + n1 + n2 + 1, "max") {
        Option::None => {
            return Option::None;
        },
        Option::Some(n) => n,
    };
    assert(t.skip(1 + n1 as int + n2 as int + 1 + n3 as int) =~= s@.skip(
        i as int + 1 + n1 as int + n2 as int + 1 + n3 as int,
    ));
    let (maxv, n4) = match parse_num_from(s, i + 1 + n1 + n2 + 1 + n3) {
        Option::None => {
            return Option::None;
        },
        Option::Some(p) => p,
    };
    assert(t.skip(1 + n1 as int + n2 as int + 1 + n3 as int + n4 as int) =~= s@.skip(
        i as int + 1 + n1 as int + n2 as int + 1 + n3 as int + n4 as int,
    ));
    if !expect_char(s, i + 1 + n1 + n2 + 1 + n3 + n4, '}') {
        return Option::None;
    }
    Option::Some((RamAllocation { min: minv, max: maxv }, 1 + n1 + n2 + 1 + n3 + n4 + 1))
}

fn parse_opt_alloc_from(s: &str, i: usize) -> (r: Option<(Option<RamAllocation>, usize)>)
    requires
        i <= s@.len(),
    ensures
        (match r {
            Option::Some((v, n)) => p_opt_alloc(s@.skip(i as int)) == Option::Some(
                (
                    (match v {
                        Option::Some(a) => Option::Some((a.min, a.max)),
                        Option::None => Option::<(u32, u32)>::None,
                    }),
                    n as int,
                ),
            ) && i + n <= s@.len(),
            Option::None => p_opt_alloc(s@.skip(i as int)) is None,
        }),
{
    if starts_null(s, i) {
        Option::Some((Option::None, 4))
    } else {
        match parse_alloc_from(s, i) {
            Option::None => Option::None,
            Option::Some((a, n)) => Option::Some((Option::Some(a), n)),
        }
    }
}

#[verifier::rlimit(100)]
#[verifier::spinoff_prover]
fn parse_launch_tail2_from(
    s: &str,
    i: usize,
    Ghost(t): Ghost<Seq<char>>,
    Ghost(rel): Ghost<int>,
    args: Option<Vec<String>>,
    jvm: Option<Vec<String>>,
    pre: Option<String>,
    post: Option<String>,
) -> (r: Option<(InstanceLaunchConfig, usize)>)
    requires
        i <= s@.len(),
        0 <= rel <= t.len(),
        t.skip(rel) =~= s@.skip(i as int),
    ensures
        (match r {
            Option::Some((l, n)) => {
                &&& p_launch_tail2(
                    t,
                    rel,
                    (match args {
                        Option::Some(ref v) => Option::Some(strs(v@)),
                        Option::None => Option::None,
                    }),
                    (match jvm {
                        Option::Some(ref v) => Option::Some(strs(v@)),
                        Option::None => Option::None,
                    }),
                    (match pre {
                        Option::Some(ref v) => Option::Some(v@),
                        Option::None => Option::None,
                    }),
                    (match post {
                        Option::Some(ref v) => Option::Some(v@),
                        Option::None => Option::None,
                    }),
                ) == Option::Some((launch_v(l), rel + n))
                &&& i + n <= s@.len()
            },
            Option::None => p_launch_tail2(
                t,
                rel,
                (match args {
                    Option::Some(ref v) => Option::Some(strs(v@)),
                    Option::None => Option::None,
                }),
                (match jvm {
                    Option::Some(ref v) => Option::Some(strs(v@)),
                    Option::None => Option::None,
                }),
                (match pre {
                    Option::Some(ref v) => Option::Some(v@),
                    Option::None => Option::None,
                }),
                (match post {
                    Option::Some(ref v) => Option::Some(v@),
                    Option::None => Option::None,
                }),
            ) is None,
        }),
{
    let total = s.unicode_len();
    assert(s@.len() == total as nat);
    assert(t.skip(rel) =~= s@.skip(i as int));
    let n1 = match parse_key_from(s, i, "allocation") {
        Option::None => {
            return Option::None;
        },
        Option::Some(n) => n,
    };
    assert(t.skip(rel + n1 as int) =~= s@.skip(i as int + n1 as int)) by {
        assert(t.skip(rel).skip(n1 as int) =~= t.skip(rel + n1 as int));
        assert(s@.skip(i as int).skip(n1 as int) =~= s@.skip(i as int + n1 as int));
    };
    let (alloc, n2) = match parse_opt_alloc_from(s, i + n1) {
        Option::None => {
            return Option::None;
        },
        Option::Some(p) => p,
    };
    assert(t.skip(rel + n1 as int + n2 as int) =~= s@.skip(i as int + n1 as int + n2 as int)) by {
        assert(t.skip(rel).skip(n1 as int + n2 as int) =~= t.skip(rel + n1 as int + n2 as int));
        assert(s@.skip(i as int).skip(n1 as int + n2 as int) =~= s@.skip(
            i as int + n1 as int + n2 as int,
        ));
    };
    if !expect_char(s, i + n1 + n2, ',') {
        return Option::None;
    }
    assert(t.skip(rel + n1 as int + n2 as int + 1) =~= s@.skip(
        i as int + n1 as int + n2 as int + 1,
    )) by {
        assert(t.skip(rel).skip(n1 as int + n2 as int + 1) =~= t.skip(
            rel + n1 as int + n2 as int + 1,
        ));
        assert(s@.skip(i as int).skip(n1 as int + n2 as int + 1) =~= s@.skip(
            i as int + n1 as int + n2 as int + 1,
        ));
    };
    let n3 = match parse_key_from(s, i + n1 + n2 + 1, "javapath") {
        Option::None => {
            return Option::None;
        },
        Option::Some(n) => n,
    };
    assert(t.skip(rel + n1 as int + n2 as int + 1 + n3 as int) =~= s@.skip(
        i as int + n1 as int + n2 as int + 1 + n3 as int,
    )) by {
        assert(t.skip(rel).skip(n1 as int + n2 as int + 1 + n3 as int) =~= t.skip(
            rel + n1 as int + n2 as int + 1 + n3 as int,
        ));
        assert(s@.skip(i as int).skip(n1 as int + n2 as int + 1 + n3 as int) =~= s@.skip(
            i as int + n1 as int + n2 as int + 1 + n3 as int,
        ));
    };
    let (java, n4) = match parse_opt_str_from(s, i + n1 + n2 + 1 + n3) {
        Option::None => {
            return Option::None;
        },
        Option::Some(p) => p,
    };
    assert(t.skip(rel + n1 as int + n2 as int + 1 + n3 as int + n4 as int) =~= s@.skip(
        i as int + n1 as int + n2 as int + 1 + n3 as int + n4 as int,
    )) by {
        assert(t.skip(rel).skip(n1 as int + n2 as int + 1 + n3 as int + n4 as int) =~= t.skip(
            rel + n1 as int + n2 as int + 1 + n3 as int + n4 as int,
        ));
        assert(s@.skip(i as int).skip(n1 as int + n2 as int + 1 + n3 as int + n4 as int)
            =~= s@.skip(i as int + n1 as int + n2 as int + 1 + n3 as int + n4 as int));
    };
    if !expect_char(s, i + n1 + n2 + 1 + n3 + n4, '}') {
        return Option::None;
    }
    let l = InstanceLaunchConfig {
        args,
        jvm_args: jvm,
        prelaunch_command: pre,
        postlaunch_command: post,
        allocation: alloc,
        javapath: java,
    };
    Option::Some((l, n1 + n2 + 1 + n3 + n4 + 1))
}

#[verifier::rlimit(100)]
#[verifier::spinoff_prover]
fn parse_launch_tail_from(
    s: &str,
    i: usize,
    Ghost(t): Ghost<Seq<char>>,
    Ghost(rel): Ghost<int>,
    args: Option<Vec<String>>,
    jvm: Option<Vec<String>>,
) -> (r: Option<(InstanceLaunchConfig, usize)>)
    requires
        i <= s@.len(),
        0 <= rel <= t.len(),
        t.skip(rel) =~= s@.skip(i as int),
    ensures
        (match r {
            Option::Some((l, n)) => {
                &&& p_launch_tail(
                    t,
                    rel,
                    (match args {
                        Option::Some(ref v) => Option::Some(strs(v@)),
                        Option::None => Option::None,
                    }),
                    (match jvm {
                        Option::Some(ref v) => Option::Some(strs(v@)),
                        Option::None => Option::None,
                    }),
                ) == Option::Some((launch_v(l), rel + n))
                &&& i + n <= s@.len()
            },
            Option::None => p_launch_tail(
                t,
                rel,
                (match args {
                    Option::Some(ref v) => Option::Some(strs(v@)),
                    Option::None => Option::None,
                }),
                (match jvm {
                    Option::Some(ref v) => Option::Some(strs(v@)),
                    Option::None => Option::None,
                }),
            ) is None,
        }),
{
    let total = s.unicode_len();
    assert(s@.len() == total as nat);
    let n5 = match parse_key_from(s, i, "prelaunch_command") {
        Option::None => {
            return Option::None;
        },
        Option::Some(n) => n,
    };
    assert(t.skip(rel + n5 as int) =~= s@.skip(i as int + n5 as int)) by {
        assert(t.skip(rel).skip(n5 as int) =~= t.skip(rel + n5 as int));
        assert(s@.skip(i as int).skip(n5 as int) =~= s@.skip(i as int + n5 as int));
    };
    let (pre, n6) = match parse_opt_str_from(s, i + n5) {
        Option::None => {
            return Option::None;
        },
        Option::Some(p) => p,
    };
    assert(t.skip(rel + n5 as int + n6 as int) =~= s@.skip(i as int + n5 as int + n6 as int)) by {
        assert(t.skip(rel).skip(n5 as int + n6 as int) =~= t.skip(rel + n5 as int + n6 as int));
        assert(s@.skip(i as int).skip(n5 as int + n6 as int) =~= s@.skip(
            i as int + n5 as int + n6 as int,
        ));
    };
    if !expect_char(s, i + n5 + n6, ',') {
        return Option::None;
    }
    assert(t.skip(rel + n5 as int + n6 as int + 1) =~= s@.skip(
        i as int + n5 as int + n6 as int + 1,
    )) by {
        assert(t.skip(rel).skip(n5 as int + n6 as int + 1) =~= t.skip(
            rel + n5 as int + n6 as int + 1,
        ));
        assert(s@.skip(i as int).skip(n5 as int + n6 as int + 1) =~= s@.skip(
            i as int + n5 as int + n6 as int + 1,
        ));
    };
    let n7 = match parse_key_from(s, i + n5 + n6 + 1, "postlaunch_command") {
        Option::None => {
            return Option::None;
        },
        Option::Some(n) => n,
    };
    assert(t.skip(rel + n5 as int + n6 as int + 1 + n7 as int) =~= s@.skip(
        i as int + n5 as int + n6 as int + 1 + n7 as int,
    )) by {
        assert(t.skip(rel).skip(n5 as int + n6 as int + 1 + n7 as int) =~= t.skip(
            rel + n5 as int + n6 as int + 1 + n7 as int,
        ));
        assert(s@.skip(i as int).skip(n5 as int + n6 as int + 1 + n7 as int) =~= s@.skip(
            i as int + n5 as int + n6 as int + 1 + n7 as int,
        ));
    };
    let (post, n8) = match parse_opt_str_from(s, i + n5 + n6 + 1 + n7) {
        Option::None => {
            return Option::None;
        },
        Option::Some(p) => p,
    };
    assert(t.skip(rel + n5 as int + n6 as int + 1 + n7 as int + n8 as int) =~= s@.skip(
        i as int + n5 as int + n6 as int + 1 + n7 as int + n8 as int,
    )) by {
        assert(t.skip(rel).skip(n5 as int + n6 as int + 1 + n7 as int + n8 as int) =~= t.skip(
            rel + n5 as int + n6 as int + 1 + n7 as int + n8 as int,
        ));
        assert(s@.skip(i as int).skip(n5 as int + n6 as int + 1 + n7 as int + n8 as int)
            =~= s@.skip(i as int + n5 as int + n6 as int + 1 + n7 as int + n8 as int));
    };
    if !expect_char(s, i + n5 + n6 + 1 + n7 + n8, ',') {
        return Option::None;
    }
    let base3 = i + n5 + n6 + 1 + n7 + n8 + 1;
    let ghost rel3 = rel + n5 as int + n6 as int + 1 + n7 as int + n8 as int + 1;
    assert(t.skip(rel3) =~= s@.skip(base3 as int)) by {
        assert(t.skip(rel).skip(n5 as int + n6 as int + 1 + n7 as int + n8 as int + 1) =~= t.skip(
            rel3,
        ));
        assert(s@.skip(i as int).skip(n5 as int + n6 as int + 1 + n7 as int + n8 as int + 1)
            =~= s@.skip(base3 as int));
    };
    match parse_launch_tail2_from(s, base3, Ghost(t), Ghost(rel3), args, jvm, pre, post) {
        Option::None => Option::None,
        Option::Some((l, m)) => Option::Some((l, n5 + n6 + 1 + n7 + n8 + 1 + m)),
    }
}

#[verifier::rlimit(100)]
#[verifier::spinoff_prover]
fn parse_launch_from(s: &str, i: usize) -> (r: Option<(InstanceLaunchConfig, usize)>)
    requires
        i <= s@.len(),
    ensures
        (match r {
            Option::Some((l, n)) => p_launch(s@.skip(i as int)) == Option::Some(
                (launch_v(l), n as int),
            ) && i + n <= s@.len(),
            Option::None => p_launch(s@.skip(i as int)) is None,
        }),
{
    let ghost t = s@.skip(i as int);
    let total = s.unicode_len();
    assert(s@.len() == total as nat);
    if !expect_char(s, i, '{') {
        return Option::None;
    }
    assert(t.skip(1) =~= s@.skip(i as int + 1));
    let n1 = match parse_key_from(s, i + 1, "args") {
        Option::None => {
            return Option::None;
        },
        Option::Some(n) => n,
    };
    assert(t.skip(1 + n1 as int) =~= s@.skip(i as int + 1 + n1 as int));
    let (args, n2) = match parse_opt_str_array_from(s, i + 1 + n1) {
        Option::None => {
            return Option::None;
        },
        Option::Some(p) => p,
    };
    assert(t.skip(1 + n1 as int + n2 as int) =~= s@.skip(i as int + 1 + n1 as int + n2 as int));
    if !expect_char(s, i + 1 + n1 + n2, ',') {
        return Option::None;
    }
    assert(t.skip(1 + n1 as int + n2 as int + 1) =~= s@.skip(
        i as int + 1 + n1 as int + n2 as int + 1,
    ));
    let n3 = match parse_key_from(s, i + 1 + n1 + n2 + 1, "jvm_args") {
        Option::None => {
            return Option::None;
        },
        Option::Some(n) => n,
    };
    assert(t.skip(1 + n1 as int + n2 as int + 1 + n3 as int) =~= s@.skip(
        i as int + 1 + n1 as int + n2 as int + 1 + n3 as int,
    ));
    let (jvm, n4) = match parse_opt_str_array_from(s, i + 1 + n1 + n2 + 1 + n3) {
        Option::None => {
            return Option::None;
        },
        Option::Some(p) => p,
    };
    assert(t.skip(1 + n1 as int + n2 as int + 1 + n3 as int + n4 as int) =~= s@.skip(
        i as int + 1 + n1 as int + n2 as int + 1 + n3 as int + n4 as int,
    ));
    if !expect_char(s, i + 1 + n1 + n2 + 1 + n3 + n4, ',') {
        return Option::None;
    }
    let base2 = i + 1 + n1 + n2 + 1 + n3 + n4 + 1;
    let ghost rel2 = 1 + n1 as int + n2 as int + 1 + n3 as int + n4 as int + 1;
    assert(t.skip(rel2) =~= s@.skip(base2 as int));
    match parse_launch_tail_from(s, base2, Ghost(t), Ghost(rel2), args, jvm) {
        Option::None => Option::None,
        Option::Some((l, m)) => Option::Some((l, 1 + n1 + n2 + 1 + n3 + n4 + 1 + m)),
    }
}

/// Reads a configuration document: insignificant whitespace outside
/// strings is ignored, standard string escapes are accepted, and the
/// members must stand in the order `write_config` emits (the order the
/// fields are declared in, which ordinary serializers preserve). Anything
/// else is rejected, never misread; the whole input must parse.
pub fn read_config(s: &str) -> (r: Option<InstanceConfig>)
    ensures
        (match r {
            Option::Some(c) => p_config(spec_strip_ws(s@)) == Option::Some(config_v(c)),
            Option::None => p_config(spec_strip_ws(s@)) is None,
        }),
{
    let stripped = strip_ws(s);
    read_config_exact(stripped.as_str())
}

/// Reads a document already in canonical whitespace-free form.
fn read_config_exact(s: &str) -> (r: Option<InstanceConfig>)
    ensures
        (match r {
            Option::Some(c) => p_config(s@) == Option::Some(config_v(c)),
            Option::None => p_config(s@) is None,
        }),
{
    let ghost t = s@;
    let total = s.unicode_len();
    assert(s@.len() == total as nat);
    assert(s@.skip(0) =~= s@);
    if !expect_char(s, 0, '{') {
        return Option::None;
    }
    let n1 = match parse_key_from(s, 1, "name") {
        Option::None => {
            return Option::None;
        },
        Option::Some(n) => n,
    };
    let (name, n2) = match parse_str_from(s, 1 + n1) {
        Option::None => {
            return Option::None;
        },
        Option::Some(p) => p,
    };
    if !expect_char(s, 1 + n1 + n2, ',') {
        return Option::None;
    }
    let n3 = match parse_key_from(s, 1 + n1 + n2 + 1, "components") {
        Option::None => {
            return Option::None;
        },
        Option::Some(n) => n,
    };
    let (comps, n4) = match parse_components_from(s, 1 + n1 + n2 + 1 + n3) {
        Option::None => {
            return Option::None;
        },
        Option::Some(p) => p,
    };
    if !expect_char(s, 1 + n1 + n2 + 1 + n3 + n4, ',') {
        return Option::None;
    }
    let n5 = match parse_key_from(s, 1 + n1 + n2 + 1 + n3 + n4 + 1, "launch") {
        Option::None => {
            return Option::None;
        },
        Option::Some(n) => n,
    };
    let (launch, n6) = match parse_launch_from(s, 1 + n1 + n2 + 1 + n3 + n4 + 1 + n5) {
        Option::None => {
            return Option::None;
        },
        Option::Some(p) => p,
    };
    if !expect_char(s, 1 + n1 + n2 + 1 + n3 + n4 + 1 + n5 + n6, '}') {
        return Option::None;
    }
    if 1 + n1 + n2 + 1 + n3 + n4 + 1 + n5 + n6 + 1 != total {
        return Option::None;
    }
    Option::Some(InstanceConfig { name, components: comps, launch })
}

// ---------------------------------------------------------------------
// Whitespace normalization: insignificant whitespace outside strings is
// removed before parsing, so documents from ordinary JSON tools read
// correctly. Inside strings every character is kept, escapes pairwise.
// ---------------------------------------------------------------------
pub open spec fn spec_is_ws(c: char) -> bool {
    c == ' ' || c == '\t' || c == '\n' || c == '\r'
}

/// The document with insignificant whitespace removed. The `in_str` flag
/// tracks whether the scan stands inside a string literal.
pub open spec fn spec_strip_from(s: Seq<char>, in_str: bool) -> Seq<char>
    decreases s.len(),
{
    if s.len() == 0 {
        Seq::<char>::empty()
    } else if in_str {
        if s[0] == '\\' && s.len() >= 2 {
            seq![s[0], s[1]] + spec_strip_from(s.skip(2), true)
        } else if s[0] == '"' {
            seq![s[0]] + spec_strip_from(s.drop_first(), false)
        } else {
            seq![s[0]] + spec_strip_from(s.drop_first(), true)
        }
    } else {
        if spec_is_ws(s[0]) {
            spec_strip_from(s.drop_first(), false)
        } else if s[0] == '"' {
            seq![s[0]] + spec_strip_from(s.drop_first(), true)
        } else {
            seq![s[0]] + spec_strip_from(s.drop_first(), false)
        }
    }
}

pub open spec fn spec_strip_ws(s: Seq<char>) -> Seq<char> {
    spec_strip_from(s, false)
}

fn strip_ws_from(s: &str, i: usize, in_str: bool) -> (r: String)
    requires
        i <= s@.len(),
    ensures
        r@ =~= spec_strip_from(s@.skip(i as int), in_str),
    decreases s@.len() - i,
{
    let n = s.unicode_len();
    if i == n {
        assert(s@.skip(i as int) =~= Seq::<char>::empty());
        return String::new();
    }
    let ghost t = s@.skip(i as int);
    assert(t[0] == s@[i as int]);
    assert(t.drop_first() =~= s@.skip(i as int + 1));
    let c = s.get_char(i);
    if in_str {
        if c == '\\' && i + 1 < n {
            assert(t.len() >= 2 && t[1] == s@[i as int + 1]);
            assert(t.skip(2) =~= s@.skip(i as int + 2));
            let c2 = s.get_char(i + 1);
            let rest = strip_ws_from(s, i + 2, true);
            let mut out = String::new();
            push_char(&mut out, c);
            push_char(&mut out, c2);
            out.append(rest.as_str());
            out
        } else {
            proof {
                if t.len() >= 2 {
                    assert(t[1] == s@[i as int + 1]);
                }
            }
            let rest = strip_ws_from(s, i + 1, c != '"');
            let mut out = String::new();
            push_char(&mut out, c);
            out.append(rest.as_str());
            out
        }
    } else {
        if c == ' ' || c == '\t' || c == '\n' || c == '\r' {
            strip_ws_from(s, i + 1, false)
        } else {
            let rest = strip_ws_from(s, i + 1, c == '"');
            let mut out = String::new();
            push_char(&mut out, c);
            out.append(rest.as_str());
            out
        }
    }
}

/// Removes insignificant whitespace outside string literals.
pub fn strip_ws(s: &str) -> (r: String)
    ensures
        r@ == spec_strip_ws(s@),
{
    let r = strip_ws_from(s, 0, false);
    assert(s@.skip(0) =~= s@);
    r
}


/// A text that whitespace stripping passes through unchanged, whatever
/// follows it: its quotes are balanced and it holds no whitespace outside
/// its string literals.
pub open spec fn strip_clean(x: Seq<char>) -> bool {
    forall|rest: Seq<char>|
        #[trigger] spec_strip_from(x + rest, false) == x + spec_strip_from(rest, false)
}

proof fn lemma_strip_clean_concat(a: Seq<char>, b: Seq<char>)
    requires
        strip_clean(a),
        strip_clean(b),
    ensures
        strip_clean(a + b),
{
    assert forall|rest: Seq<char>| #[trigger]
        spec_strip_from((a + b) + rest, false) == (a + b) + spec_strip_from(rest, false) by {
        assert((a + b) + rest =~= a + (b + rest));
        assert(spec_strip_from(a + (b + rest), false) == a + spec_strip_from(b + rest, false));
        assert(spec_strip_from(b + rest, false) == b + spec_strip_from(rest, false));
        assert(a + (b + spec_strip_from(rest, false)) =~= (a + b) + spec_strip_from(rest, false));
    };
}

proof fn lemma_strip_clean_plain(x: Seq<char>)
    requires
        forall|i: int| 0 <= i < x.len() ==> !spec_is_ws(#[trigger] x[i]) && x[i] != '"',
    ensures
        strip_clean(x),
    decreases x.len(),
{
    if x.len() == 0 {
        assert forall|rest: Seq<char>| #[trigger]
            spec_strip_from(x + rest, false) == x + spec_strip_from(rest, false) by {
            assert(x + rest =~= rest);
            assert(x + spec_strip_from(rest, false) =~= spec_strip_from(rest, false));
        };
    } else {
        let d = x.drop_first();
        assert(forall|i: int| 0 <= i < d.len() ==> !spec_is_ws(#[trigger] d[i]) && d[i] != '"')
            by {
            assert forall|i: int| 0 <= i < d.len() implies !spec_is_ws(#[trigger] d[i]) && d[i]
                != '"' by {
                assert(d[i] == x[i + 1]);
            };
        };
        lemma_strip_clean_plain(d);
        assert forall|rest: Seq<char>| #[trigger]
            spec_strip_from(x + rest, false) == x + spec_strip_from(rest, false) by {
            let s = x + rest;
            assert(s[0] == x[0]);
            assert(!spec_is_ws(x[0]) && x[0] != '"');
            assert(s.drop_first() =~= d + rest);
            assert(spec_strip_from(d + rest, false) == d + spec_strip_from(rest, false));
            assert(seq![x[0]] + (d + spec_strip_from(rest, false)) =~= x + spec_strip_from(
                rest,
                false,
            ));
        };
    }
}

/// Stripping walks an escaped string body without change: escapes pairwise,
/// everything else kept, until the closing quote leaves string mode.
proof fn lemma_strip_str_body(v: Seq<char>, rest: Seq<char>)
    ensures
        spec_strip_from(spec_escape(v) + seq!['"'] + rest, true) == spec_escape(v) + seq!['"']
            + spec_strip_from(rest, false),
    decreases v.len(),
{
    let s = spec_escape(v) + seq!['"'] + rest;
    if v.len() == 0 {
        assert(spec_escape(v) =~= Seq::<char>::empty());
        assert(s[0] == '"');
        assert(s.drop_first() =~= rest);
        assert(seq!['"'] + spec_strip_from(rest, false) =~= spec_escape(v) + seq!['"']
            + spec_strip_from(rest, false));
    } else {
        let c = v[0];
        let tail = v.drop_first();
        lemma_strip_str_body(tail, rest);
        let done = spec_escape(tail) + seq!['"'] + spec_strip_from(rest, false);
        if c == '"' || c == '\\' {
            assert(s[0] == '\\' && s.len() >= 2);
            assert(s.skip(2) =~= spec_escape(tail) + seq!['"'] + rest);
            assert(seq![s[0], s[1]] + done =~= spec_escape(v) + seq!['"'] + spec_strip_from(
                rest,
                false,
            ));
        } else if c as u32 <= 31 {
            let hi = HEX_DIGITS[(c as u32 / 16) as int];
            let lo = HEX_DIGITS[(c as u32 % 16) as int];
            assert(s[0] == '\\' && s[1] == 'u' && s[2] == '0' && s[3] == '0' && s[4] == hi && s[5]
                == lo);
            assert(hi != '"' && hi != '\\' && lo != '"' && lo != '\\') by {
                lemma_hex_digit_char((c as u32 / 16) as nat);
                lemma_hex_digit_char((c as u32 % 16) as nat);
            };
            assert(s.skip(2) =~= seq!['0', '0', hi, lo] + (spec_escape(tail) + seq!['"'] + rest));
            assert(s.skip(3) =~= seq!['0', hi, lo] + (spec_escape(tail) + seq!['"'] + rest));
            assert(s.skip(4) =~= seq![hi, lo] + (spec_escape(tail) + seq!['"'] + rest));
            assert(s.skip(5) =~= seq![lo] + (spec_escape(tail) + seq!['"'] + rest));
            assert(s.skip(6) =~= spec_escape(tail) + seq!['"'] + rest);
            assert(s.skip(2).drop_first() =~= s.skip(3));
            assert(s.skip(3).drop_first() =~= s.skip(4));
            assert(s.skip(4).drop_first() =~= s.skip(5));
            assert(s.skip(5).drop_first() =~= s.skip(6));
            assert(spec_strip_from(s.skip(5), true) == seq![lo] + done);
            assert(spec_strip_from(s.skip(4), true) == seq![hi, lo] + done) by {
                assert(seq![hi] + (seq![lo] + done) =~= seq![hi, lo] + done);
            };
            assert(spec_strip_from(s.skip(3), true) == seq!['0', hi, lo] + done) by {
                assert(seq!['0'] + (seq![hi, lo] + done) =~= seq!['0', hi, lo] + done);
            };
            assert(spec_strip_from(s.skip(2), true) == seq!['0', '0', hi, lo] + done) by {
                assert(seq!['0'] + (seq!['0', hi, lo] + done) =~= seq!['0', '0', hi, lo] + done);
            };
            assert(seq![s[0], s[1]] + (seq!['0', '0', hi, lo] + done) =~= spec_escape(v)
                + seq!['"'] + spec_strip_from(rest, false));
        } else {
            assert(s[0] == c && c != '"' && c != '\\');
            assert(s.drop_first() =~= spec_escape(tail) + seq!['"'] + rest);
            assert(seq![s[0]] + done =~= spec_escape(v) + seq!['"'] + spec_strip_from(rest, false));
        }
    }
}

proof fn lemma_strip_clean_str(v: Seq<char>)
    ensures
        strip_clean(emit_str(v)),
{
    assert forall|rest: Seq<char>| #[trigger]
        spec_strip_from(emit_str(v) + rest, false) == emit_str(v) + spec_strip_from(
            rest,
            false,
        ) by {
        let s = emit_str(v) + rest;
        assert(s[0] == '"');
        assert(!spec_is_ws('"'));
        assert(s.drop_first() =~= spec_escape(v) + seq!['"'] + rest);
        lemma_strip_str_body(v, rest);
        assert(seq!['"'] + (spec_escape(v) + seq!['"'] + spec_strip_from(rest, false))
            =~= emit_str(v) + spec_strip_from(rest, false));
    };
}


proof fn lemma_strip_clean_char(c: char)
    requires
        !spec_is_ws(c),
        c != '"',
    ensures
        strip_clean(seq![c]),
{
    let x = seq![c];
    assert(forall|i: int| 0 <= i < x.len() ==> !spec_is_ws(#[trigger] x[i]) && x[i] != '"');
    lemma_strip_clean_plain(x);
}

proof fn lemma_strip_clean_null()
    ensures
        strip_clean(null_text()),
{
    let x = null_text();
    assert(forall|i: int| 0 <= i < x.len() ==> !spec_is_ws(#[trigger] x[i]) && x[i] != '"');
    lemma_strip_clean_plain(x);
}

proof fn lemma_strip_clean_dec(n: nat)
    ensures
        strip_clean(spec_dec(n)),
{
    lemma_dec_all_digits(n);
    let x = spec_dec(n);
    assert forall|i: int| 0 <= i < x.len() implies !spec_is_ws(#[trigger] x[i]) && x[i] != '"' by {
        assert(spec_is_digit(x[i]));
    };
    lemma_strip_clean_plain(x);
}

proof fn lemma_strip_clean_opt_str(v: Option<Seq<char>>)
    ensures
        strip_clean(emit_opt_str(v)),
{
    match v {
        Option::Some(sv) => lemma_strip_clean_str(sv),
        Option::None => lemma_strip_clean_null(),
    }
}

proof fn lemma_strip_clean_component(c: (Seq<char>, Seq<char>))
    ensures
        strip_clean(emit_component(c)),
{
    lemma_strip_clean_char('{');
    lemma_strip_clean_str("id"@);
    lemma_strip_clean_char(':');
    lemma_strip_clean_str(c.0);
    lemma_strip_clean_char(',');
    lemma_strip_clean_str("version"@);
    lemma_strip_clean_str(c.1);
    lemma_strip_clean_char('}');
    lemma_strip_clean_concat(seq!['{'], emit_str("id"@));
    lemma_strip_clean_concat(seq!['{'] + emit_str("id"@), seq![':']);
    lemma_strip_clean_concat(seq!['{'] + emit_str("id"@) + seq![':'], emit_str(c.0));
    lemma_strip_clean_concat(seq!['{'] + emit_str("id"@) + seq![':'] + emit_str(c.0), seq![',']);
    lemma_strip_clean_concat(
        seq!['{'] + emit_str("id"@) + seq![':'] + emit_str(c.0) + seq![','],
        emit_str("version"@),
    );
    lemma_strip_clean_concat(
        seq!['{'] + emit_str("id"@) + seq![':'] + emit_str(c.0) + seq![','] + emit_str("version"@),
        seq![':'],
    );
    lemma_strip_clean_concat(
        seq!['{'] + emit_str("id"@) + seq![':'] + emit_str(c.0) + seq![','] + emit_str("version"@)
            + seq![':'],
        emit_str(c.1),
    );
    lemma_strip_clean_concat(
        seq!['{'] + emit_str("id"@) + seq![':'] + emit_str(c.0) + seq![','] + emit_str("version"@)
            + seq![':'] + emit_str(c.1),
        seq!['}'],
    );
}

proof fn lemma_strip_clean_empty()
    ensures
        strip_clean(Seq::<char>::empty()),
{
    lemma_strip_clean_plain(Seq::<char>::empty());
}

proof fn lemma_strip_clean_component_items(cs: Seq<(Seq<char>, Seq<char>)>)
    ensures
        strip_clean(emit_component_items(cs)),
    decreases cs.len(),
{
    if cs.len() == 0 {
        lemma_strip_clean_empty();
    } else if cs.len() == 1 {
        lemma_strip_clean_component(cs[0]);
    } else {
        lemma_strip_clean_component(cs[0]);
        lemma_strip_clean_char(',');
        lemma_strip_clean_component_items(cs.drop_first());
        lemma_strip_clean_concat(emit_component(cs[0]), seq![',']);
        lemma_strip_clean_concat(
            emit_component(cs[0]) + seq![','],
            emit_component_items(cs.drop_first()),
        );
    }
}

proof fn lemma_strip_clean_components(cs: Seq<(Seq<char>, Seq<char>)>)
    ensures
        strip_clean(emit_components(cs)),
{
    lemma_strip_clean_char('[');
    lemma_strip_clean_component_items(cs);
    lemma_strip_clean_char(']');
    lemma_strip_clean_concat(seq!['['], emit_component_items(cs));
    lemma_strip_clean_concat(seq!['['] + emit_component_items(cs), seq![']']);
}

proof fn lemma_strip_clean_str_items(items: Seq<Seq<char>>)
    ensures
        strip_clean(emit_str_items(items)),
    decreases items.len(),
{
    if items.len() == 0 {
        lemma_strip_clean_empty();
    } else if items.len() == 1 {
        lemma_strip_clean_str(items[0]);
    } else {
        lemma_strip_clean_str(items[0]);
        lemma_strip_clean_char(',');
        lemma_strip_clean_str_items(items.drop_first());
        lemma_strip_clean_concat(emit_str(items[0]), seq![',']);
        lemma_strip_clean_concat(
            emit_str(items[0]) + seq![','],
            emit_str_items(items.drop_first()),
        );
    }
}

proof fn lemma_strip_clean_opt_str_array(v: Option<Seq<Seq<char>>>)
    ensures
        strip_clean(emit_opt_str_array(v)),
{
    match v {
        Option::Some(items) => {
            lemma_strip_clean_char('[');
            lemma_strip_clean_str_items(items);
            lemma_strip_clean_char(']');
            lemma_strip_clean_concat(seq!['['], emit_str_items(items));
            lemma_strip_clean_concat(seq!['['] + emit_str_items(items), seq![']']);
        },
        Option::None => lemma_strip_clean_null(),
    }
}

proof fn lemma_strip_clean_opt_alloc(v: Option<(u32, u32)>)
    ensures
        strip_clean(emit_opt_alloc(v)),
{
    match v {
        Option::Some(a) => {
            lemma_strip_clean_char('{');
            lemma_strip_clean_str("min"@);
            lemma_strip_clean_char(':');
            lemma_strip_clean_dec(a.0 as nat);
            lemma_strip_clean_char(',');
            lemma_strip_clean_str("max"@);
            lemma_strip_clean_dec(a.1 as nat);
            lemma_strip_clean_char('}');
            lemma_strip_clean_concat(seq!['{'], emit_str("min"@));
            lemma_strip_clean_concat(seq!['{'] + emit_str("min"@), seq![':']);
            lemma_strip_clean_concat(
                seq!['{'] + emit_str("min"@) + seq![':'],
                spec_dec(a.0 as nat),
            );
            lemma_strip_clean_concat(
                seq!['{'] + emit_str("min"@) + seq![':'] + spec_dec(a.0 as nat),
                seq![','],
            );
            lemma_strip_clean_concat(
                seq!['{'] + emit_str("min"@) + seq![':'] + spec_dec(a.0 as nat) + seq![','],
                emit_str("max"@),
            );
            lemma_strip_clean_concat(
                seq!['{'] + emit_str("min"@) + seq![':'] + spec_dec(a.0 as nat) + seq![',']
                    + emit_str("max"@),
                seq![':'],
            );
            lemma_strip_clean_concat(
                seq!['{'] + emit_str("min"@) + seq![':'] + spec_dec(a.0 as nat) + seq![',']
                    + emit_str("max"@) + seq![':'],
                spec_dec(a.1 as nat),
            );
            lemma_strip_clean_concat(
                seq!['{'] + emit_str("min"@) + seq![':'] + spec_dec(a.0 as nat) + seq![',']
                    + emit_str("max"@) + seq![':'] + spec_dec(a.1 as nat),
                seq!['}'],
            );
        },
        Option::None => lemma_strip_clean_null(),
    }
}

proof fn lemma_strip_clean_launch_tail2(alloc: Option<(u32, u32)>, java: Option<Seq<char>>)
    ensures
        strip_clean(emit_launch_tail2(alloc, java)),
{
    lemma_strip_clean_str("allocation"@);
    lemma_strip_clean_char(':');
    lemma_strip_clean_opt_alloc(alloc);
    lemma_strip_clean_char(',');
    lemma_strip_clean_str("javapath"@);
    lemma_strip_clean_opt_str(java);
    lemma_strip_clean_char('}');
    let t1 = emit_str("allocation"@);
    let t2 = t1 + seq![':'];
    let t3 = t2 + emit_opt_alloc(alloc);
    let t4 = t3 + seq![','];
    let t5 = t4 + emit_str("javapath"@);
    let t6 = t5 + seq![':'];
    let t7 = t6 + emit_opt_str(java);
    lemma_strip_clean_concat(t1, seq![':']);
    lemma_strip_clean_concat(t2, emit_opt_alloc(alloc));
    lemma_strip_clean_concat(t3, seq![',']);
    lemma_strip_clean_concat(t4, emit_str("javapath"@));
    lemma_strip_clean_concat(t5, seq![':']);
    lemma_strip_clean_concat(t6, emit_opt_str(java));
    lemma_strip_clean_concat(t7, seq!['}']);
}

proof fn lemma_strip_clean_launch_tail(
    pre: Option<Seq<char>>,
    post: Option<Seq<char>>,
    alloc: Option<(u32, u32)>,
    java: Option<Seq<char>>,
)
    ensures
        strip_clean(emit_launch_tail(pre, post, alloc, java)),
{
    lemma_strip_clean_str("prelaunch_command"@);
    lemma_strip_clean_char(':');
    lemma_strip_clean_opt_str(pre);
    lemma_strip_clean_char(',');
    lemma_strip_clean_str("postlaunch_command"@);
    lemma_strip_clean_opt_str(post);
    lemma_strip_clean_launch_tail2(alloc, java);
    let t1 = emit_str("prelaunch_command"@);
    let t2 = t1 + seq![':'];
    let t3 = t2 + emit_opt_str(pre);
    let t4 = t3 + seq![','];
    let t5 = t4 + emit_str("postlaunch_command"@);
    let t6 = t5 + seq![':'];
    let t7 = t6 + emit_opt_str(post);
    let t8 = t7 + seq![','];
    lemma_strip_clean_concat(t1, seq![':']);
    lemma_strip_clean_concat(t2, emit_opt_str(pre));
    lemma_strip_clean_concat(t3, seq![',']);
    lemma_strip_clean_concat(t4, emit_str("postlaunch_command"@));
    lemma_strip_clean_concat(t5, seq![':']);
    lemma_strip_clean_concat(t6, emit_opt_str(post));
    lemma_strip_clean_concat(t7, seq![',']);
    lemma_strip_clean_concat(t8, emit_launch_tail2(alloc, java));
}

#[verifier::rlimit(100)]
#[verifier::spinoff_prover]
proof fn lemma_strip_clean_launch(
    l: (
        Option<Seq<Seq<char>>>,
        Option<Seq<Seq<char>>>,
        Option<Seq<char>>,
        Option<Seq<char>>,
        Option<(u32, u32)>,
        Option<Seq<char>>,
    ),
)
    ensures
        strip_clean(emit_launch(l)),
{
    lemma_strip_clean_char('{');
    lemma_strip_clean_str("args"@);
    lemma_strip_clean_char(':');
    lemma_strip_clean_opt_str_array(l.0);
    lemma_strip_clean_char(',');
    lemma_strip_clean_str("jvm_args"@);
    lemma_strip_clean_opt_str_array(l.1);
    lemma_strip_clean_launch_tail(l.2, l.3, l.4, l.5);
    let t1 = seq!['{'];
    let t2 = t1 + emit_str("args"@);
    let t3 = t2 + seq![':'];
    let t4 = t3 + emit_opt_str_array(l.0);
    let t5 = t4 + seq![','];
    let t6 = t5 + emit_str("jvm_args"@);
    let t7 = t6 + seq![':'];
    let t8 = t7 + emit_opt_str_array(l.1);
    let t9 = t8 + seq![','];
    lemma_strip_clean_concat(t1, emit_str("args"@));
    lemma_strip_clean_concat(t2, seq![':']);
    lemma_strip_clean_concat(t3, emit_opt_str_array(l.0));
    lemma_strip_clean_concat(t4, seq![',']);
    lemma_strip_clean_concat(t5, emit_str("jvm_args"@));
    lemma_strip_clean_concat(t6, seq![':']);
    lemma_strip_clean_concat(t7, emit_opt_str_array(l.1));
    lemma_strip_clean_concat(t8, seq![',']);
    lemma_strip_clean_concat(t9, emit_launch_tail(l.2, l.3, l.4, l.5));
}

/// The canonical document holds no insignificant whitespace: stripping
/// leaves it exactly as written.
pub proof fn lemma_strip_emit_config(
    cv: (
        Seq<char>,
        Seq<(Seq<char>, Seq<char>)>,
        (
            Option<Seq<Seq<char>>>,
            Option<Seq<Seq<char>>>,
            Option<Seq<char>>,
            Option<Seq<char>>,
            Option<(u32, u32)>,
            Option<Seq<char>>,
        ),
    ),
)
    ensures
        spec_strip_ws(emit_config(cv)) == emit_config(cv),
{
    lemma_strip_clean_char('{');
    lemma_strip_clean_str("name"@);
    lemma_strip_clean_char(':');
    lemma_strip_clean_str(cv.0);
    lemma_strip_clean_char(',');
    lemma_strip_clean_str("components"@);
    lemma_strip_clean_components(cv.1);
    lemma_strip_clean_str("launch"@);
    lemma_strip_clean_launch(cv.2);
    lemma_strip_clean_char('}');
    let t1 = seq!['{'];
    let t2 = t1 + emit_str("name"@);
    let t3 = t2 + seq![':'];
    let t4 = t3 + emit_str(cv.0);
    let t5 = t4 + seq![','];
    let t6 = t5 + emit_str("components"@);
    let t7 = t6 + seq![':'];
    let t8 = t7 + emit_components(cv.1);
    let t9 = t8 + seq![','];
    let t10 = t9 + emit_str("launch"@);
    let t11 = t10 + seq![':'];
    let t12 = t11 + emit_launch(cv.2);
    lemma_strip_clean_concat(t1, emit_str("name"@));
    lemma_strip_clean_concat(t2, seq![':']);
    lemma_strip_clean_concat(t3, emit_str(cv.0));
    lemma_strip_clean_concat(t4, seq![',']);
    lemma_strip_clean_concat(t5, emit_str("components"@));
    lemma_strip_clean_concat(t6, seq![':']);
    lemma_strip_clean_concat(t7, emit_components(cv.1));
    lemma_strip_clean_concat(t8, seq![',']);
    lemma_strip_clean_concat(t9, emit_str("launch"@));
    lemma_strip_clean_concat(t10, seq![':']);
    lemma_strip_clean_concat(t11, emit_launch(cv.2));
    lemma_strip_clean_concat(t12, seq!['}']);
    let whole = t12 + seq!['}'];
    assert(emit_config(cv) == whole);
    assert(spec_strip_from(whole + Seq::<char>::empty(), false) == whole + spec_strip_from(
        Seq::<char>::empty(),
        false,
    ));
    assert(whole + Seq::<char>::empty() =~= whole);
    assert(spec_strip_from(Seq::<char>::empty(), false) == Seq::<char>::empty());
    assert(whole + Seq::<char>::empty() =~= whole);
    assert(spec_strip_ws(whole) =~= whole);
}

} // verus!
