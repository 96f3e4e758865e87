//! The configuration string of a machine:
//! `<reflector>;<rotor>-<position>-<ring>,...;<letter>-<letter>,...`.
//!
//! The rotors are written as they are seen from the front of the machine, so
//! the last one written is the first to step. White space is ignored
//! everywhere, and round brackets are ignored around rotors and cables.

use crate::alphabet::{is_letter, is_letter_char, symbol_of, to_upper, upper_case};
use crate::reflector::is_reflector_id;
use crate::rotor::is_rotor_id;
use vstd::prelude::*;
use vstd::string::*;

verus! {

/// The characters that count as white space: those with the Unicode property
/// `White_Space`.
pub open spec fn is_whitespace(c: char) -> bool {
    let code = c as int;
    ||| 0x09 <= code <= 0x0D
    ||| code == 0x20
    ||| code == 0x85
    ||| code == 0xA0
    ||| code == 0x1680
    ||| 0x2000 <= code <= 0x200A
    ||| code == 0x2028
    ||| code == 0x2029
    ||| code == 0x202F
    ||| code == 0x205F
    ||| code == 0x3000
}

/// The characters that a part of the configuration is read without: white
/// space, and round brackets where `brackets` says so.
pub open spec fn is_layout(c: char, brackets: bool) -> bool {
    is_whitespace(c) || (brackets && (c == '(' || c == ')'))
}

/// What is left of a part of the configuration once the layout is taken out.
pub open spec fn stripped(text: Seq<char>, brackets: bool) -> Seq<char> {
    text.filter(|c: char| !is_layout(c, brackets))
}

/// The pieces of a text between the occurrences of a separator. A text with
/// `n` separators has `n + 1` pieces, some of which may be empty.
pub open spec fn split(text: Seq<char>, separator: char) -> Seq<Seq<char>>
    decreases text.len(),
{
    if text.len() == 0 {
        seq![Seq::empty()]
    } else {
        let pieces = split(text.drop_last(), separator);
        if text.last() == separator {
            pieces.push(Seq::empty())
        } else {
            pieces.drop_last().push(pieces.last().push(text.last()))
        }
    }
}

/// The pieces written one after the other with the separator between them.
pub open spec fn join(pieces: Seq<Seq<char>>, separator: char) -> Seq<char>
    decreases pieces.len(),
{
    if pieces.len() == 0 {
        Seq::empty()
    } else if pieces.len() == 1 {
        pieces[0]
    } else {
        join(pieces.drop_last(), separator).push(separator) + pieces.last()
    }
}

/// Whether the separator occurs in none of the pieces.
pub open spec fn are_free_of(pieces: Seq<Seq<char>>, separator: char) -> bool {
    forall|i: int, j: int|
        0 <= i < pieces.len() && 0 <= j < pieces[i].len() ==> #[trigger] pieces[i][j] != separator
}

/// The identifier that the first part of a configuration names, if it names a
/// reflector.
pub open spec fn parse_reflector(text: Seq<char>) -> Option<Seq<char>> {
    if is_reflector_id(stripped(text, false)) {
        Some(stripped(text, false))
    } else {
        None
    }
}

/// The symbol that an element of a rotor stands for: that of its first
/// character, which must be a letter.
pub open spec fn parse_symbol(element: Seq<char>) -> Option<u8> {
    if element.len() > 0 && is_letter(element[0]) {
        Some(symbol_of(element[0]) as u8)
    } else {
        None
    }
}

/// The rotor that `<rotor>-<position>-<ring>` asks for.
pub open spec fn parse_rotor(text: Seq<char>) -> Option<(Seq<char>, u8, u8)> {
    let elements = split(text, '-');
    if elements.len() == 3 && is_rotor_id(elements[0]) && parse_symbol(elements[1]) is Some
        && parse_symbol(elements[2]) is Some {
        Some((elements[0], parse_symbol(elements[1])->0, parse_symbol(elements[2])->0))
    } else {
        None
    }
}

/// The rotors that the second part of a configuration asks for, the last one
/// written first. There must be three or four.
pub open spec fn parse_rotors(text: Seq<char>) -> Option<Seq<(Seq<char>, u8, u8)>> {
    let written = split(stripped(text, true), ',');
    if (written.len() == 3 || written.len() == 4) && forall|i: int|
        0 <= i < written.len() ==> parse_rotor(#[trigger] written[i]) is Some {
        Some(Seq::new(written.len(), |i: int| parse_rotor(written[written.len() - 1 - i])->0))
    } else {
        None
    }
}

/// The cable that `<letter>-<letter>` asks for, in upper case. Whatever stands
/// between the two letters is taken for the hyphen.
pub open spec fn parse_cable(text: Seq<char>) -> Option<(char, char)> {
    if text.len() == 3 && is_letter(text[0]) && is_letter(text[2]) {
        Some((to_upper(text[0]), to_upper(text[2])))
    } else {
        None
    }
}

/// The cables that the third part of a configuration asks for.
pub open spec fn parse_plugboard(text: Seq<char>) -> Option<Seq<(char, char)>> {
    let written = split(stripped(text, true), ',');
    if forall|i: int| 0 <= i < written.len() ==> parse_cable(#[trigger] written[i]) is Some {
        Some(Seq::new(written.len(), |i: int| parse_cable(written[i])->0))
    } else {
        None
    }
}

/// A configuration as the contracts see it.
pub struct ConfigView {
    pub reflector_id: Seq<char>,
    pub rotor_ids: Seq<(Seq<char>, u8, u8)>,
    pub plugboard_maps: Option<Seq<(char, char)>>,
}

/// What a configuration string asks for. It has two or three parts; reflector
/// and rotors must be well written, and a third part that is not counts as no
/// third part.
pub open spec fn parse_config(text: Seq<char>) -> Option<ConfigView> {
    let parts = split(text, ';');
    if (parts.len() == 2 || parts.len() == 3) && parse_reflector(parts[0]) is Some && parse_rotors(
        parts[1],
    ) is Some {
        Some(
            ConfigView {
                reflector_id: parse_reflector(parts[0])->0,
                rotor_ids: parse_rotors(parts[1])->0,
                plugboard_maps: if parts.len() == 3 {
                    parse_plugboard(parts[2])
                } else {
                    None
                },
            },
        )
    } else {
        None
    }
}

/// The views of a list of texts.
pub open spec fn text_views(texts: Seq<Vec<char>>) -> Seq<Seq<char>> {
    texts.map_values(|t: Vec<char>| t@)
}

/// The views of a list of rotors with position and ring setting.
pub open spec fn rotor_id_views(rotor_ids: Seq<(String, u8, u8)>) -> Seq<(Seq<char>, u8, u8)> {
    rotor_ids.map_values(|r: (String, u8, u8)| (r.0@, r.1, r.2))
}

/// Whether a character is white space.
pub fn is_whitespace_char(c: char) -> (white: bool)
    ensures
        white == is_whitespace(c),
{
    let code: u32 = c as u32;
    (0x09 <= code && code <= 0x0D) || code == 0x20 || code == 0x85 || code == 0xA0 || code
        == 0x1680 || (0x2000 <= code && code <= 0x200A) || code == 0x2028 || code == 0x2029
        || code == 0x202F || code == 0x205F || code == 0x3000
}

/// The characters of a string.
pub fn chars_of(text: &str) -> (chars: Vec<char>)
    ensures
        chars@ == text@,
{
    let n: usize = text.unicode_len();
    let mut chars: Vec<char> = Vec::new();
    let mut i: usize = 0;
    while i < n
        invariant
            i <= n,
            n == text@.len(),
            chars@ == text@.take(i as int),
        decreases n - i,
    {
        chars.push(text.get_char(i));
        assert(text@.take(i + 1) =~= text@.take(i as int).push(text@[i as int]));
        i += 1;
    }
    assert(text@.take(n as int) =~= text@);
    chars
}

/// Whether a list of characters spells a string.
pub fn spells(chars: &[char], word: &str) -> (same: bool)
    ensures
        same == (chars@ == word@),
{
    let n: usize = word.unicode_len();
    if chars.len() != n {
        return false;
    }
    let mut i: usize = 0;
    while i < n
        invariant
            i <= n,
            n == word@.len(),
            n == chars@.len(),
            forall|j: int| 0 <= j < i ==> chars@[j] == word@[j],
        decreases n - i,
    {
        if chars[i] != word.get_char(i) {
            return false;
        }
        i += 1;
    }
    assert(chars@ =~= word@);
    true
}

/// Takes white space out of a text, and round brackets too if `brackets` is set.
pub fn strip(text: &[char], brackets: bool) -> (kept: Vec<char>)
    ensures
        kept@ == stripped(text@, brackets),
{
    let n: usize = text.len();
    let mut kept: Vec<char> = Vec::new();
    let mut i: usize = 0;
    proof {
        reveal(Seq::filter);
    }
    while i < n
        invariant
            i <= n,
            n == text@.len(),
            kept@ == stripped(text@.take(i as int), brackets),
        decreases n - i,
    {
        let c = text[i];
        proof {
            reveal(Seq::filter);
            assert(text@.take(i + 1).drop_last() =~= text@.take(i as int));
            assert(text@.take(i + 1).last() == c);
        }
        if !is_whitespace_char(c) && !(brackets && (c == '(' || c == ')')) {
            kept.push(c);
        }
        i += 1;
    }
    assert(text@.take(n as int) =~= text@);
    kept
}

/// Cuts a text at every occurrence of a separator.
pub fn split_at(text: &[char], separator: char) -> (pieces: Vec<Vec<char>>)
    ensures
        text_views(pieces@) == split(text@, separator),
        pieces@.len() >= 1,
{
    let n: usize = text.len();
    let mut pieces: Vec<Vec<char>> = Vec::new();
    let mut piece: Vec<char> = Vec::new();
    let mut i: usize = 0;
    while i < n
        invariant
            i <= n,
            n == text@.len(),
            text_views(pieces@).push(piece@) == split(text@.take(i as int), separator),
        decreases n - i,
    {
        let c = text[i];
        proof {
            assert(text@.take(i + 1).drop_last() =~= text@.take(i as int));
            assert(text@.take(i + 1).last() == c);
            assert(text_views(pieces@).push(piece@).drop_last() =~= text_views(pieces@));
        }
        if c == separator {
            let ghost done = text_views(pieces@);
            let ghost last = piece@;
            pieces.push(piece);
            piece = Vec::new();
            assert(text_views(pieces@) =~= done.push(last));
        } else {
            piece.push(c);
        }
        i += 1;
    }
    assert(text@.take(n as int) =~= text@);
    let ghost done = text_views(pieces@);
    let ghost last = piece@;
    pieces.push(piece);
    assert(text_views(pieces@) =~= done.push(last));
    pieces
}

/// The identifier that a text spells, if it is that of a kind of rotor.
fn rotor_id_of(text: &[char]) -> (id: Option<String>)
    ensures
        is_rotor_id(text@) ==> id is Some && id->0@ == text@,
        !is_rotor_id(text@) ==> id is None,
{
    if spells(text, "I") {
        Some(String::from_str("I"))
    } else if spells(text, "II") {
        Some(String::from_str("II"))
    } else if spells(text, "III") {
        Some(String::from_str("III"))
    } else if spells(text, "IV") {
        Some(String::from_str("IV"))
    } else if spells(text, "V") {
        Some(String::from_str("V"))
    } else if spells(text, "VI") {
        Some(String::from_str("VI"))
    } else if spells(text, "VII") {
        Some(String::from_str("VII"))
    } else if spells(text, "VIII") {
        Some(String::from_str("VIII"))
    } else {
        None
    }
}

/// The symbol of the first character of an element, if that is a letter.
fn symbol_of_element(element: &[char]) -> (symbol: Option<u8>)
    ensures
        symbol == parse_symbol(element@),
{
    if element.len() == 0 || !is_letter_char(element[0]) {
        return None;
    }
    let code: u32 = upper_case(element[0]) as u32;
    Some((code - 65) as u8)
}

/// Reads one rotor, written as `<rotor>-<position>-<ring>`.
fn rotor_of(text: &[char]) -> (rotor: Option<(String, u8, u8)>)
    ensures
        match rotor {
            Some(rotor) => parse_rotor(text@) == Some((rotor.0@, rotor.1, rotor.2)),
            None => parse_rotor(text@) is None,
        },
{
    let elements = split_at(text, '-');
    if elements.len() != 3 {
        return None;
    }
    assert(text_views(elements@)[0] == elements@[0]@);
    assert(text_views(elements@)[1] == elements@[1]@);
    assert(text_views(elements@)[2] == elements@[2]@);
    let id = match rotor_id_of(elements[0].as_slice()) {
        Some(id) => id,
        None => {
            return None;
        },
    };
    let pos: u8 = match symbol_of_element(elements[1].as_slice()) {
        Some(pos) => pos,
        None => {
            return None;
        },
    };
    let ring: u8 = match symbol_of_element(elements[2].as_slice()) {
        Some(ring) => ring,
        None => {
            return None;
        },
    };
    Some((id, pos, ring))
}

/// Reads one cable, written as `<letter>-<letter>`.
fn cable_of(text: &[char]) -> (cable: Option<(char, char)>)
    ensures
        cable == parse_cable(text@),
{
    if text.len() != 3 || !is_letter_char(text[0]) || !is_letter_char(text[2]) {
        return None;
    }
    Some((upper_case(text[0]), upper_case(text[2])))
}

/// Which reflector a configuration asks for.
#[derive(Debug)]
pub struct ReflectorConfig {
    pub reflector_id: String,
}

impl ReflectorConfig {
    /// Reads the first part of a configuration: the identifier of a reflector,
    /// with white space wherever.
    pub fn parse(config: &[char]) -> (parsed: Option<ReflectorConfig>)
        ensures
            match parsed {
                Some(parsed) => parse_reflector(config@) == Some(parsed.reflector_id@),
                None => parse_reflector(config@) is None,
            },
    {
        let id = strip(config, false);
        if spells(id.as_slice(), "A") {
            Some(ReflectorConfig { reflector_id: String::from_str("A") })
        } else if spells(id.as_slice(), "B") {
            Some(ReflectorConfig { reflector_id: String::from_str("B") })
        } else if spells(id.as_slice(), "C") {
            Some(ReflectorConfig { reflector_id: String::from_str("C") })
        } else {
            None
        }
    }
}

/// Which rotors a configuration asks for, the first to step first.
#[derive(Debug)]
pub struct RotorConfig {
    pub rotor_ids: Vec<(String, u8, u8)>,
}

impl RotorConfig {
    /// Reads the second part of a configuration: three or four rotors with
    /// commas between them, each written as `<rotor>-<position>-<ring>`, where
    /// position and ring setting are letters. The rotors come out in reverse.
    pub fn parse(config: &[char]) -> (parsed: Option<RotorConfig>)
        ensures
            match parsed {
                Some(parsed) => parse_rotors(config@) == Some(rotor_id_views(parsed.rotor_ids@)),
                None => parse_rotors(config@) is None,
            },
    {
        let text = strip(config, true);
        let rotor_cfgs = split_at(text.as_slice(), ',');
        let n: usize = rotor_cfgs.len();
        if n != 3 && n != 4 {
            return None;
        }
        let ghost written = split(stripped(config@, true), ',');
        let mut rotor_ids: Vec<(String, u8, u8)> = Vec::new();
        let mut i: usize = 0;
        while i < n
            invariant
                i <= n,
                n == rotor_cfgs@.len(),
                written == text_views(rotor_cfgs@),
                written == split(stripped(config@, true), ','),
                rotor_ids@.len() == i,
                forall|k: int| n - i <= k < n ==> parse_rotor(#[trigger] written[k]) is Some,
                forall|k: int|
                    0 <= k < i ==> #[trigger] rotor_id_views(rotor_ids@)[k] == parse_rotor(
                        written[n - 1 - k],
                    )->0,
            decreases n - i,
        {
            assert(written[n - 1 - i] == rotor_cfgs@[n - 1 - i]@);
            match rotor_of(rotor_cfgs[n - 1 - i].as_slice()) {
                Some(rotor) => {
                    let ghost before = rotor_id_views(rotor_ids@);
                    let ghost added = (rotor.0@, rotor.1, rotor.2);
                    rotor_ids.push(rotor);
                    assert(rotor_id_views(rotor_ids@) =~= before.push(added));
                },
                None => {
                    assert(parse_rotor(written[n - 1 - i]) is None);
                    return None;
                },
            }
            i += 1;
        }
        assert(rotor_id_views(rotor_ids@) =~= parse_rotors(config@)->0);
        Some(RotorConfig { rotor_ids })
    }
}

/// Which cables a configuration asks for.
#[derive(Debug)]
pub struct PlugBoardConfig {
    pub plugboard_maps: Vec<(char, char)>,
}

impl PlugBoardConfig {
    /// Reads the third part of a configuration: cables with commas between them,
    /// each written as `<letter>-<letter>`. The letters come out in upper case.
    pub fn parse(config: &[char]) -> (parsed: Option<PlugBoardConfig>)
        ensures
            match parsed {
                Some(parsed) => parse_plugboard(config@) == Some(parsed.plugboard_maps@),
                None => parse_plugboard(config@) is None,
            },
    {
        let text = strip(config, true);
        let pb_maps = split_at(text.as_slice(), ',');
        let n: usize = pb_maps.len();
        let ghost written = split(stripped(config@, true), ',');
        let mut plugboard_maps: Vec<(char, char)> = Vec::new();
        let mut i: usize = 0;
        while i < n
            invariant
                i <= n,
                n == pb_maps@.len(),
                written == text_views(pb_maps@),
                written == split(stripped(config@, true), ','),
                plugboard_maps@.len() == i,
                forall|k: int| 0 <= k < i ==> parse_cable(#[trigger] written[k]) is Some,
                forall|k: int|
                    0 <= k < i ==> #[trigger] plugboard_maps@[k] == parse_cable(written[k])->0,
            decreases n - i,
        {
            assert(written[i as int] == pb_maps@[i as int]@);
            match cable_of(pb_maps[i].as_slice()) {
                Some(cable) => {
                    plugboard_maps.push(cable);
                },
                None => {
                    assert(parse_cable(written[i as int]) is None);
                    return None;
                },
            }
            i += 1;
        }
        assert(plugboard_maps@ =~= parse_plugboard(config@)->0);
        Some(PlugBoardConfig { plugboard_maps })
    }
}

/// What a configuration asks for.
#[derive(Debug)]
pub struct Config {
    pub reflector_config: ReflectorConfig,
    pub rotor_config: RotorConfig,
    pub plugboard_config: Option<PlugBoardConfig>,
}

impl View for Config {
    type V = ConfigView;

    open spec fn view(&self) -> ConfigView {
        ConfigView {
            reflector_id: self.reflector_config.reflector_id@,
            rotor_ids: rotor_id_views(self.rotor_config.rotor_ids@),
            plugboard_maps: match self.plugboard_config {
                Some(plugboard_config) => Some(plugboard_config.plugboard_maps@),
                None => None,
            },
        }
    }
}

impl Config {
    /// Reads a configuration string. It has two or three parts with semicolons
    /// between them: reflector, rotors and, if there are three, cables. A
    /// configuration whose reflector or rotors cannot be read is refused; one
    /// whose cables cannot be read comes out without cables.
    pub fn parse(config: &str) -> (parsed: Option<Config>)
        ensures
            match parsed {
                Some(parsed) => parse_config(config@) == Some(parsed@),
                None => parse_config(config@) is None,
            },
    {
        let text = chars_of(config);
        let cfg_parts = split_at(text.as_slice(), ';');
        if cfg_parts.len() != 2 && cfg_parts.len() != 3 {
            return None;
        }
        assert(text_views(cfg_parts@)[0] == cfg_parts@[0]@);
        assert(text_views(cfg_parts@)[1] == cfg_parts@[1]@);
        let reflector_config = ReflectorConfig::parse(cfg_parts[0].as_slice());
        let rotor_config = RotorConfig::parse(cfg_parts[1].as_slice());
        let plugboard_config = if cfg_parts.len() == 3 {
            assert(text_views(cfg_parts@)[2] == cfg_parts@[2]@);
            PlugBoardConfig::parse(cfg_parts[2].as_slice())
        } else {
            None
        };
        match (reflector_config, rotor_config) {
            (Some(reflector_config), Some(rotor_config)) => Some(
                Config { reflector_config, rotor_config, plugboard_config },
            ),
            _ => None,
        }
    }
}

/// Cutting a text and joining the pieces gives the text back: the pieces are
/// the text between the separators, and the separator is in none of them.
pub proof fn lemma_split_then_join(text: Seq<char>, separator: char)
    ensures
        split(text, separator).len() >= 1,
        are_free_of(split(text, separator), separator),
        join(split(text, separator), separator) == text,
    decreases text.len(),
{
    let pieces = split(text, separator);
    if text.len() == 0 {
        assert(join(pieces, separator) =~= text);
    } else {
        let front = text.drop_last();
        let before = split(front, separator);
        lemma_split_then_join(front, separator);
        if text.last() == separator {
            assert(pieces.drop_last() =~= before);
            assert(join(pieces, separator) =~= front.push(separator));
            assert(front.push(separator) =~= text);
        } else {
            let grown = before.last().push(text.last());
            assert(pieces.last() == grown);
            assert forall|i: int, j: int|
                0 <= i < pieces.len() && 0 <= j < pieces[i].len() implies #[trigger] pieces[i][j]
                != separator by {
                if i < pieces.len() - 1 {
                    assert(pieces[i] == before[i]);
                    assert(before[i][j] != separator);
                } else if j < before.last().len() {
                    assert(before[before.len() - 1][j] != separator);
                }
            }
            if before.len() == 1 {
                assert(join(pieces, separator) =~= join(before, separator).push(text.last()));
            } else {
                assert(pieces.drop_last() =~= before.drop_last());
                assert(join(pieces, separator) =~= join(before, separator).push(text.last()));
            }
            assert(front.push(text.last()) =~= text);
        }
    }
}

/// Joining pieces that are free of the separator and cutting the text gives
/// the pieces back: a text is cut in one way only.
pub proof fn lemma_join_then_split(pieces: Seq<Seq<char>>, separator: char)
    requires
        pieces.len() >= 1,
        are_free_of(pieces, separator),
    ensures
        split(join(pieces, separator), separator) == pieces,
    decreases pieces.len(), pieces.last().len(),
{
    let text = join(pieces, separator);
    let last = pieces.last();
    if last.len() == 0 {
        if pieces.len() == 1 {
            assert(text =~= Seq::empty());
            assert(split(text, separator) =~= pieces);
        } else {
            let front = pieces.drop_last();
            assert(are_free_of(front, separator)) by {
                assert forall|i: int, j: int|
                    0 <= i < front.len() && 0 <= j < front[i].len() implies #[trigger] front[i][j]
                    != separator by {
                    assert(pieces[i][j] != separator);
                }
            }
            lemma_join_then_split(front, separator);
            assert(last =~= Seq::empty());
            assert(text =~= join(front, separator).push(separator));
            assert(text.drop_last() =~= join(front, separator));
            assert(text.last() == separator);
            assert(pieces =~= front.push(Seq::empty()));
        }
    } else {
        let c = last.last();
        assert(pieces[pieces.len() - 1][last.len() - 1] != separator);
        let shorter = pieces.drop_last().push(last.drop_last());
        assert(are_free_of(shorter, separator)) by {
            assert forall|i: int, j: int|
                0 <= i < shorter.len() && 0 <= j < shorter[i].len() implies #[trigger] shorter[i][j]
                != separator by {
                assert(pieces[i][j] != separator);
            }
        }
        lemma_join_then_split(shorter, separator);
        if pieces.len() > 1 {
            assert(shorter.drop_last() =~= pieces.drop_last());
        }
        assert(last =~= last.drop_last().push(c));
        assert(text =~= join(shorter, separator).push(c));
        assert(text.drop_last() =~= join(shorter, separator));
        assert(shorter.drop_last().push(shorter.last().push(c)) =~= pieces);
    }
}

/// What a configuration that is read asks for can be had: the reflector and
/// the three or four rotors exist, positions and ring settings are symbols,
/// and the cables join upper-case letters.
pub proof fn lemma_parsed_config_can_be_had(text: Seq<char>)
    requires
        parse_config(text) is Some,
    ensures
        is_reflector_id(parse_config(text)->0.reflector_id),
        3 <= parse_config(text)->0.rotor_ids.len() <= 4,
        forall|i: int|
            0 <= i < parse_config(text)->0.rotor_ids.len() ==> {
                let rotor = #[trigger] parse_config(text)->0.rotor_ids[i];
                is_rotor_id(rotor.0) && rotor.1 < 26 && rotor.2 < 26
            },
        parse_config(text)->0.plugboard_maps matches Some(cables) ==> forall|i: int|
            0 <= i < cables.len() ==> {
                let cable = #[trigger] cables[i];
                is_letter(cable.0) && to_upper(cable.0) == cable.0 && is_letter(cable.1)
                    && to_upper(cable.1) == cable.1
            },
{
    let parts = split(text, ';');
    let rotors = split(stripped(parts[1], true), ',');
    assert forall|i: int| 0 <= i < parse_config(text)->0.rotor_ids.len() implies {
        let rotor = #[trigger] parse_config(text)->0.rotor_ids[i];
        is_rotor_id(rotor.0) && rotor.1 < 26 && rotor.2 < 26
    } by {
        assert(parse_rotor(rotors[rotors.len() - 1 - i]) is Some);
    }
    if parse_config(text)->0.plugboard_maps is Some {
        let cables = parse_config(text)->0.plugboard_maps->0;
        let written = split(stripped(parts[2], true), ',');
        assert forall|i: int| 0 <= i < cables.len() implies {
            let cable = #[trigger] cables[i];
            is_letter(cable.0) && to_upper(cable.0) == cable.0 && is_letter(cable.1) && to_upper(
                cable.1,
            ) == cable.1
        } by {
            assert(parse_cable(written[i]) is Some);
        }
    }
}

} // verus!
