use vstd::prelude::*;

verus! {

/// The settings that a settings file can give a value to.
#[derive(Copy, Clone, PartialEq, Eq, Structural, Hash, Debug)]
pub enum SettingKey {
    FoodPerWorker,
    WoodPerHouse,
    WorkersPerHouse,
    StonePerHouse,
    WoodToBuildHouse,
    StoneToBuildHouse,
    AvgWorkerAge,
    PercentOffspringChance,
}

impl SettingKey {
    /// The name under which a file gives the setting.
    pub open spec fn name(self) -> Seq<char> {
        match self {
            SettingKey::FoodPerWorker => "food_per_worker"@,
            SettingKey::WoodPerHouse => "wood_per_house"@,
            SettingKey::WorkersPerHouse => "workers_per_house"@,
            SettingKey::StonePerHouse => "stone_per_house"@,
            SettingKey::WoodToBuildHouse => "wood_to_build_house"@,
            SettingKey::StoneToBuildHouse => "stone_to_build_house"@,
            SettingKey::AvgWorkerAge => "avg_worker_age"@,
            SettingKey::PercentOffspringChance => "percent_offspring_chance"@,
        }
    }

    /// The setting of the given name, if there is one.
    pub open spec fn named(name: Seq<char>) -> Option<SettingKey> {
        if name == SettingKey::FoodPerWorker.name() {
            Some(SettingKey::FoodPerWorker)
        } else if name == SettingKey::WoodPerHouse.name() {
            Some(SettingKey::WoodPerHouse)
        } else if name == SettingKey::WorkersPerHouse.name() {
            Some(SettingKey::WorkersPerHouse)
        } else if name == SettingKey::StonePerHouse.name() {
            Some(SettingKey::StonePerHouse)
        } else if name == SettingKey::WoodToBuildHouse.name() {
            Some(SettingKey::WoodToBuildHouse)
        } else if name == SettingKey::StoneToBuildHouse.name() {
            Some(SettingKey::StoneToBuildHouse)
        } else if name == SettingKey::AvgWorkerAge.name() {
            Some(SettingKey::AvgWorkerAge)
        } else if name == SettingKey::PercentOffspringChance.name() {
            Some(SettingKey::PercentOffspringChance)
        } else {
            None
        }
    }

    /// Whether the setting is a whole number; the others are fractions.
    pub open spec fn is_whole(self) -> bool {
        self == SettingKey::WorkersPerHouse || self == SettingKey::AvgWorkerAge
    }

    /// Finds the setting of the given name.
    pub fn from_name(name: &Vec<char>) -> (key: Option<SettingKey>)
        ensures
            key == SettingKey::named(name@),
    {
        if spells(name, "food_per_worker") {
            Some(SettingKey::FoodPerWorker)
        } else if spells(name, "wood_per_house") {
            Some(SettingKey::WoodPerHouse)
        } else if spells(name, "workers_per_house") {
            Some(SettingKey::WorkersPerHouse)
        } else if spells(name, "stone_per_house") {
            Some(SettingKey::StonePerHouse)
        } else if spells(name, "wood_to_build_house") {
            Some(SettingKey::WoodToBuildHouse)
        } else if spells(name, "stone_to_build_house") {
            Some(SettingKey::StoneToBuildHouse)
        } else if spells(name, "avg_worker_age") {
            Some(SettingKey::AvgWorkerAge)
        } else if spells(name, "percent_offspring_chance") {
            Some(SettingKey::PercentOffspringChance)
        } else {
            None
        }
    }

    /// Tells whether the setting is a whole number.
    pub fn holds_integer(&self) -> (whole: bool)
        ensures
            whole == self.is_whole(),
    {
        match self {
            SettingKey::WorkersPerHouse | SettingKey::AvgWorkerAge => true,
            _ => false,
        }
    }
}

/// Every setting is found under its own name: no two names are the same.
pub proof fn lemma_names_tell_apart(key: SettingKey)
    ensures
        SettingKey::named(key.name()) == Some(key),
{
    reveal_strlit("food_per_worker");
    reveal_strlit("wood_per_house");
    reveal_strlit("workers_per_house");
    reveal_strlit("stone_per_house");
    reveal_strlit("wood_to_build_house");
    reveal_strlit("stone_to_build_house");
    reveal_strlit("avg_worker_age");
    reveal_strlit("percent_offspring_chance");
    assert("food_per_worker"@.len() == 15);
    assert("wood_per_house"@.len() == 14);
    assert("workers_per_house"@.len() == 17);
    assert("stone_per_house"@.len() == 15);
    assert("wood_to_build_house"@.len() == 19);
    assert("stone_to_build_house"@.len() == 20);
    assert("avg_worker_age"@.len() == 14);
    assert("percent_offspring_chance"@.len() == 24);
    assert("food_per_worker"@[0] == 'f');
    assert("stone_per_house"@[0] == 's');
    assert("wood_per_house"@[0] == 'w');
    assert("avg_worker_age"@[0] == 'a');
}

/// Tells whether the characters spell the word.
fn spells(text: &Vec<char>, word: &str) -> (same: bool)
    ensures
        same == (text@ == word@),
{
    let length = word.unicode_len();
    if text.len() != length {
        return false;
    }
    let mut i: usize = 0;
    while i < length
        invariant
            i <= length,
            length == text@.len(),
            length == word@.len(),
            forall|j: int| 0 <= j < i ==> text@[j] == word@[j],
        decreases length - i,
    {
        if text[i] != word.get_char(i) {
            return false;
        }
        i = i + 1;
    }
    assert(text@ =~= word@);
    true
}

/// The characters that a line is stripped of before it is read: the
/// space, the tab, and the two characters that end a line.
pub open spec fn is_whitespace(c: char) -> bool {
    c == ' ' || c == '\t' || c == '\r' || c == '\n'
}

/// The test for characters that are kept.
pub open spec fn is_kept() -> spec_fn(char) -> bool {
    |c: char| !is_whitespace(c)
}

/// The line without its whitespace, wherever in the line it stood.
pub open spec fn stripped(line: Seq<char>) -> Seq<char> {
    line.filter(is_kept())
}

/// Where the field that starts at `from` ends: at the next colon, or at
/// the end of the text.
pub open spec fn field_end(text: Seq<char>, from: int) -> int
    decreases text.len() - from,
{
    if 0 <= from < text.len() && text[from] != ':' {
        field_end(text, from + 1)
    } else {
        from
    }
}

/// The first field of a text: what stands before the first colon.
pub open spec fn name_field(text: Seq<char>) -> Seq<char> {
    text.subrange(0, field_end(text, 0))
}

/// The second field of a text: what stands between the first colon and
/// the next. It is empty where the text has no colon.
pub open spec fn value_field(text: Seq<char>) -> Seq<char> {
    let colon = field_end(text, 0);
    if colon < text.len() {
        text.subrange(colon + 1, field_end(text, colon + 1))
    } else {
        Seq::empty()
    }
}

/// What a line of a settings file says.
pub enum SettingLine {
    /// Nothing: the line is empty but for whitespace.
    Blank,
    /// Nothing that can be read: the name or the value is missing.
    Malformed,
    /// A value for a setting that does not exist.
    Unknown { name: Vec<char> },
    /// A value for a setting, as it is written.
    Entry { key: SettingKey, value: Vec<char> },
}

/// What a line of a settings file says, as plain values.
pub enum SettingLineView {
    Blank,
    Malformed,
    Unknown { name: Seq<char> },
    Entry { key: SettingKey, value: Seq<char> },
}

impl View for SettingLine {
    type V = SettingLineView;

    open spec fn view(&self) -> SettingLineView {
        match self {
            SettingLine::Blank => SettingLineView::Blank,
            SettingLine::Malformed => SettingLineView::Malformed,
            SettingLine::Unknown { name } => SettingLineView::Unknown { name: name@ },
            SettingLine::Entry { key, value } => SettingLineView::Entry {
                key: *key,
                value: value@,
            },
        }
    }
}

/// What a line says. The line is stripped of its whitespace. What is left
/// is a name and a value with a colon between them; anything after a
/// second colon is not read.
pub open spec fn read_line(line: Seq<char>) -> SettingLineView {
    let text = stripped(line);
    if text.len() == 0 {
        SettingLineView::Blank
    } else if name_field(text).len() == 0 || value_field(text).len() == 0 {
        SettingLineView::Malformed
    } else {
        match SettingKey::named(name_field(text)) {
            Some(key) => SettingLineView::Entry { key, value: value_field(text) },
            None => SettingLineView::Unknown { name: name_field(text) },
        }
    }
}

/// Tells whether a line is stripped of the character.
pub fn strips(c: char) -> (stripped: bool)
    ensures
        stripped == is_whitespace(c),
{
    c == ' ' || c == '\t' || c == '\r' || c == '\n'
}

/// The characters of a line that are not whitespace.
pub fn strip(line: &str) -> (text: Vec<char>)
    ensures
        text@ == stripped(line@),
{
    broadcast use vstd::string::group_string_axioms;

    let mut text: Vec<char> = Vec::new();
    for c in chars: line.chars()
        invariant
            chars.seq() == line@,
            text@ == chars.seq().take(chars.index() as int).filter(is_kept()),
    {
        proof {
            reveal(Seq::filter);
            let longer = chars.seq().take(chars.index() + 1);
            assert(longer.drop_last() =~= chars.seq().take(chars.index() as int));
            assert(longer.last() == c);
        }
        if !strips(c) {
            text.push(c);
        }
    }
    assert(line@.take(line@.len() as int) =~= line@);
    text
}

/// Finds the end of the field that starts at `from`.
fn find_field_end(text: &Vec<char>, from: usize) -> (end: usize)
    requires
        from <= text.len(),
    ensures
        end == field_end(text@, from as int),
        from <= end <= text.len(),
    decreases text.len() - from,
{
    if from < text.len() && text[from] != ':' {
        find_field_end(text, from + 1)
    } else {
        from
    }
}

/// The characters of `text` from `from` up to `to`.
fn copy_range(text: &Vec<char>, from: usize, to: usize) -> (part: Vec<char>)
    requires
        from <= to <= text.len(),
    ensures
        part@ == text@.subrange(from as int, to as int),
{
    let mut part: Vec<char> = Vec::new();
    let mut i: usize = from;
    while i < to
        invariant
            from <= i <= to <= text.len(),
            part@ == text@.subrange(from as int, i as int),
        decreases to - i,
    {
        part.push(text[i]);
        assert(text@.subrange(from as int, i + 1) =~= text@.subrange(from as int, i as int).push(
            text@[i as int],
        ));
        i = i + 1;
    }
    part
}

/// Reads one line of a settings file.
pub fn parse_line(line: &str) -> (parsed: SettingLine)
    ensures
        parsed@ == read_line(line@),
{
    let text = strip(line);
    if text.len() == 0 {
        return SettingLine::Blank;
    }
    let colon = find_field_end(&text, 0);
    let name = copy_range(&text, 0, colon);
    let value = if colon < text.len() {
        let end = find_field_end(&text, colon + 1);
        copy_range(&text, colon + 1, end)
    } else {
        Vec::new()
    };
    if name.len() == 0 || value.len() == 0 {
        return SettingLine::Malformed;
    }
    match SettingKey::from_name(&name) {
        Some(key) => SettingLine::Entry { key, value },
        None => SettingLine::Unknown { name },
    }
}

/// Whether the character is one of the ten digits.
pub open spec fn is_digit(c: char) -> bool {
    '0' <= c <= '9'
}

/// The number that a run of digits writes in base ten.
pub open spec fn decimal(digits: Seq<char>) -> nat
    decreases digits.len(),
{
    if digits.len() == 0 {
        0
    } else {
        decimal(digits.drop_last()) * 10 + (digits.last() as nat - '0' as nat) as nat
    }
}

/// The text without the plus sign that may stand in front of a number.
pub open spec fn unsigned(text: Seq<char>) -> Seq<char> {
    if text.len() > 0 && text[0] == '+' {
        text.drop_first()
    } else {
        text
    }
}

/// The whole number that a text writes: digits, at least one, with or
/// without a plus sign in front, that write a number within the numbers'
/// range. Any other text writes none.
pub open spec fn integer_of(text: Seq<char>) -> Option<u32> {
    let digits = unsigned(text);
    if digits.len() > 0 && (forall|i: int| 0 <= i < digits.len() ==> is_digit(#[trigger] digits[i]))
        && decimal(digits) <= u32::MAX {
        Some(decimal(digits) as u32)
    } else {
        None
    }
}

/// A run of digits writes no smaller a number than any of its prefixes.
proof fn lemma_decimal_grows(digits: Seq<char>, i: int)
    requires
        0 <= i <= digits.len(),
        forall|j: int| 0 <= j < digits.len() ==> is_digit(#[trigger] digits[j]),
    ensures
        decimal(digits.take(i)) <= decimal(digits),
    decreases digits.len() - i,
{
    if i < digits.len() {
        lemma_decimal_grows(digits, i + 1);
        assert(digits.take(i + 1).drop_last() =~= digits.take(i));
        assert(is_digit(digits[i]));
    } else {
        assert(digits.take(i) =~= digits);
    }
}

/// Reads the value of a setting that is a whole number.
pub fn parse_int(value: &Vec<char>) -> (number: Option<u32>)
    ensures
        number == integer_of(value@),
{
    let start: usize = if value.len() > 0 && value[0] == '+' {
        1
    } else {
        0
    };
    let ghost digits = unsigned(value@);
    assert(digits =~= value@.subrange(start as int, value@.len() as int));
    if start == value.len() {
        return None;
    }
    let mut number: u64 = 0;
    let mut i: usize = start;
    while i < value.len()
        invariant
            start <= i <= value.len(),
            digits == value@.subrange(start as int, value@.len() as int),
            digits == unsigned(value@),
            forall|j: int| 0 <= j < i - start ==> is_digit(#[trigger] digits[j]),
            number == decimal(digits.take(i - start)),
            number <= u32::MAX,
        decreases value.len() - i,
    {
        let c = value[i];
        assert(c == digits[i - start]);
        if c < '0' || c > '9' {
            assert(!is_digit(digits[i - start]));
            return None;
        }
        assert(digits.take(i - start + 1).drop_last() =~= digits.take(i - start));
        assert(digits.take(i - start + 1).last() == c);
        number = number * 10 + (c as u64 - '0' as u64);
        assert(number == decimal(digits.take(i - start + 1)));
        if number > u32::MAX as u64 {
            proof {
                if forall|j: int| 0 <= j < digits.len() ==> is_digit(#[trigger] digits[j]) {
                    lemma_decimal_grows(digits, i - start + 1);
                }
            }
            return None;
        }
        i = i + 1;
    }
    assert(digits.take(i - start) =~= digits);
    Some(number as u32)
}

} // verus!
