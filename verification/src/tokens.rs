//! Text shaping for the design-token generator: identifiers from token
//! names, documentation comments, and the banner of a generated file.

use vstd::prelude::*;

use crate::text::{digits, push_char, push_digits, push_str};
use vstd::string::StrSliceExecFns;

verus! {

/// The banner every generated file carries.
pub const BANNER: &'static str = "// GENERATED FILE — DO NOT EDIT.\n//\n// Produced by tools/tokengen from design/tokens/tokens.json.\n// Edit the token source and regenerate; hand edits fail continuous integration.\n//\n// The design token system is the single source of truth for every visual\n// value. No screen may bypass it, and no visual value may be hardcoded\n// downstream of this file.\n//\n// Deliberately free of framework imports so that it compiles on every platform\n// the core targets. The mapping to Color, Font and Animation is a hand-written\n// adapter in the presentation layer.\n\n";

/// What `str::to_uppercase` returns for a text: each character replaced by
/// its Unicode upper-case mapping.
pub uninterp spec fn upper_case_of(text: Seq<char>) -> Seq<char>;

/// A text in upper case: `str::to_uppercase`, which maps each character to
/// its Unicode upper case. The mapping is named, not stated, beyond ASCII: a
/// single lower-case ASCII letter becomes its capital, and any other single
/// ASCII character is itself.
#[verifier::external_body]
fn upper_case(text: &str) -> (upper: String)
    ensures
        upper@ == upper_case_of(text@),
        text@.len() == 1 && 'a' <= text@[0] <= 'z' ==> upper@ == seq![((text@[0] as u32) - 32) as char],
        text@.len() == 1 && (text@[0] as u32) < 128 && !('a' <= text@[0] <= 'z') ==> upper@ == text@,
{
    text.to_uppercase()
}

/// Whether a character separates the words of a token name.
pub open spec fn is_separator(character: char) -> bool {
    character == '.' || character == '-' || character == '_'
}

/// A token name as a camel-case identifier, built over the first `count`
/// characters: separators are dropped, and the character after one is upper
/// case. Also gives whether the next character is to be capitalised.
pub open spec fn camel_case(name: Seq<char>, count: int) -> (Seq<char>, bool)
    decreases count,
{
    if count <= 0 {
        (Seq::empty(), false)
    } else {
        let (text, capitalise) = camel_case(name, count - 1);
        let character = name[count - 1];
        if is_separator(character) {
            (text, true)
        } else if capitalise {
            (text + upper_case_of(seq![character]), false)
        } else {
            (text.push(character), false)
        }
    }
}

/// A token name as a camel-case identifier: `surface.canvas` becomes
/// `surfaceCanvas`.
pub fn to_camel_case(key: &str) -> (identifier: String)
    ensures
        identifier@ == camel_case(key@, key@.len() as int).0,
{
    let count = key.unicode_len();
    let mut result = String::new();
    let mut capitalise_next = false;
    let mut index: usize = 0;
    while index < count
        invariant
            count == key@.len(),
            index <= count,
            (result@, capitalise_next) == camel_case(key@, index as int),
        decreases count - index,
    {
        let character = key.get_char(index);
        if character == '.' || character == '-' || character == '_' {
            capitalise_next = true;
        } else if capitalise_next {
            let mut single = String::new();
            push_char(&mut single, character);
            let upper = upper_case(single.as_str());
            push_str(&mut result, upper.as_str());
            capitalise_next = false;
        } else {
            push_char(&mut result, character);
        }
        index += 1;
    }
    result
}

/// The banner every generated file carries.
pub fn header() -> (banner: String)
    ensures
        banner@ == BANNER@,
{
    let mut banner = String::new();
    push_str(&mut banner, BANNER);
    assert(banner@ =~= BANNER@);
    banner
}

/// A text as documentation comment lines, over its first `count`
/// characters: each line of the text becomes the padding, `/// `, the line
/// and a newline. Also gives the part of the last line not yet written.
pub open spec fn doc_lines(text: Seq<char>, padding: Seq<char>, count: int) -> (Seq<char>, Seq<char>)
    decreases count,
{
    if count <= 0 {
        (Seq::empty(), Seq::empty())
    } else {
        let (written, line) = doc_lines(text, padding, count - 1);
        if text[count - 1] == '\n' {
            (written + padding + "/// "@ + line + seq!['\n'], Seq::empty())
        } else {
            (written, line.push(text[count - 1]))
        }
    }
}

/// A text as a documentation comment at an indent: every line, the last one
/// included, becomes `indent` spaces, `/// `, the line and a newline.
pub open spec fn spec_doc_comment(text: Seq<char>, indent: nat) -> Seq<char> {
    let padding = Seq::new(indent, |i: int| ' ');
    let (written, line) = doc_lines(text, padding, text.len() as int);
    written + padding + "/// "@ + line + seq!['\n']
}

/// Wraps text as a documentation comment at the given indent.
pub fn doc_comment(text: &str, indent: usize) -> (comment: String)
    ensures
        comment@ == spec_doc_comment(text@, indent as nat),
{
    let ghost padding = Seq::new(indent as nat, |i: int| ' ');
    let mut spaces = String::new();
    let mut filled: usize = 0;
    while filled < indent
        invariant
            filled <= indent,
            spaces@ == Seq::new(filled as nat, |i: int| ' '),
        decreases indent - filled,
    {
        push_char(&mut spaces, ' ');
        filled += 1;
        assert(spaces@ =~= Seq::new(filled as nat, |i: int| ' '));
    }
    let count = text.unicode_len();
    let mut comment = String::new();
    let mut line = String::new();
    let mut index: usize = 0;
    while index < count
        invariant
            count == text@.len(),
            index <= count,
            spaces@ == padding,
            (comment@, line@) == doc_lines(text@, padding, index as int),
        decreases count - index,
    {
        let character = text.get_char(index);
        if character == '\n' {
            push_str(&mut comment, spaces.as_str());
            push_str(&mut comment, "/// ");
            push_str(&mut comment, line.as_str());
            push_char(&mut comment, '\n');
            line = String::new();
            proof {
                assert(line@ =~= Seq::<char>::empty());
            }
        } else {
            push_char(&mut line, character);
        }
        index += 1;
    }
    push_str(&mut comment, spaces.as_str());
    push_str(&mut comment, "/// ");
    push_str(&mut comment, line.as_str());
    push_char(&mut comment, '\n');
    comment
}


/// What comes before the colour declarations.
pub const COLOR_PREAMBLE: &'static str = "/// A colour with an appearance for each of light and dark.\n///\n/// Both appearances are always present. Light, dark and high contrast are\n/// required from day one, and a colour that exists in only one\n/// appearance is a colour that will be wrong in the other.\npublic struct ColorToken: Sendable, Equatable {\n    /// Hex string, `#RRGGBB` or `#RRGGBBAA`.\n    public let light: String\n    /// Hex string, `#RRGGBB` or `#RRGGBBAA`.\n    public let dark: String\n\n    public init(light: String, dark: String) {\n        self.light = light\n        self.dark = dark\n    }\n}\n\npublic enum ColorTokens {\n";

/// What comes before the list of every colour.
pub const COLOR_LIST_PREAMBLE: &'static str = "    /// Every colour token, keyed by its source name.\n    ///\n    /// Used by the token inspector in developer mode and by snapshot tests that\n    /// assert every token renders in both appearances.\n    public static let all: [String: ColorToken] = [\n";

/// What comes before the text styles.
pub const TYPOGRAPHY_PREAMBLE: &'static str = "/// A text style.\n///\n/// `textStyle` names the platform text style the size scales with, so that\n/// Dynamic Type is inherited rather than reimplemented. `monospacedDigits`\n/// matters wherever a number changes while the user is reading it: without\n/// tabular figures, a BPM readout shifts horizontally on every update.\npublic struct TypographyToken: Sendable, Equatable {\n    public let size: Double\n    public let weight: String\n    public let textStyle: String\n    public let tracking: Double\n    public let monospacedDigits: Bool\n\n    public init(size: Double, weight: String, textStyle: String, tracking: Double, monospacedDigits: Bool) {\n        self.size = size\n        self.weight = weight\n        self.textStyle = textStyle\n        self.tracking = tracking\n        self.monospacedDigits = monospacedDigits\n    }\n}\n\npublic enum Typography {\n";

/// What comes before the motion tokens.
pub const MOTION_PREAMBLE: &'static str = "/// A motion token: how long a change takes and how it travels.\n///\n/// Motion communicates state rather than decorating, so these are named by\n/// intent. Every one collapses to zero duration when the\n/// system requests reduced motion: the state change still happens, it simply\n/// arrives without travel.\npublic struct MotionToken: Sendable, Equatable {\n    /// Duration in milliseconds.\n    public let duration: Double\n    /// Name of the curve in `MotionCurves`.\n    public let curve: String\n\n    public init(duration: Double, curve: String) {\n        self.duration = duration\n        self.curve = curve\n    }\n\n    /// The same token with travel removed, for reduced-motion contexts.\n    public var reducedMotion: MotionToken {\n        MotionToken(duration: 0, curve: \"linear\")\n    }\n}\n\npublic enum Motion {\n";

/// What comes before the shadow definitions.
pub const ELEVATION_PREAMBLE: &'static str = "/// A shadow definition.\npublic struct ElevationToken: Sendable, Equatable {\n    public let y: Double\n    public let blur: Double\n    public let opacity: Double\n\n    public init(y: Double, blur: Double, opacity: Double) {\n        self.y = y\n        self.blur = blur\n        self.opacity = opacity\n    }\n}\n\npublic enum Elevation {\n";

/// A colour as the token source gives it: a value for each appearance and a
/// description, each where the source has one as text.
pub struct ColorEntry {
    /// The token's dotted name.
    pub key: String,
    /// The light appearance.
    pub light: Option<String>,
    /// The dark appearance.
    pub dark: Option<String>,
    /// What the colour is for.
    pub description: Option<String>,
}

/// A plain numeric token: its name, and its number as Swift writes it where
/// the source has a number.
pub struct ScalarEntry {
    /// The token's dotted name.
    pub key: String,
    /// The number, whole values without a decimal point.
    pub number: Option<String>,
}

/// A text style as the token source gives it, numbers written as Swift
/// writes them.
pub struct TypographyEntry {
    /// The token's dotted name.
    pub key: String,
    /// The size.
    pub size: Option<String>,
    /// The weight's name.
    pub weight: Option<String>,
    /// The platform text style it scales with.
    pub text_style: Option<String>,
    /// The tracking, zero where the source has none.
    pub tracking: Option<String>,
    /// Whether digits are tabular, no where the source does not say.
    pub monospaced_digits: Option<bool>,
}

/// A motion token as the token source gives it.
pub struct MotionEntry {
    /// The token's dotted name.
    pub key: String,
    /// The duration in milliseconds, as Swift writes it.
    pub duration: Option<String>,
    /// The curve's name.
    pub curve: Option<String>,
    /// What the motion communicates.
    pub description: Option<String>,
}

/// A shadow as the token source gives it; a missing number is zero.
pub struct ElevationEntry {
    /// The token's dotted name.
    pub key: String,
    /// The vertical offset.
    pub y: Option<String>,
    /// The blur radius.
    pub blur: Option<String>,
    /// The opacity.
    pub opacity: Option<String>,
}

/// The design token source, as far as the bindings read it: each group's
/// tokens in the source's order, where the source has the group.
pub struct TokenSource {
    /// The source's version, where it is a whole number.
    pub version: Option<u64>,
    /// The colours.
    pub color: Option<Vec<ColorEntry>>,
    /// The spacing scale.
    pub spacing: Option<Vec<ScalarEntry>>,
    /// The corner radii.
    pub radius: Option<Vec<ScalarEntry>>,
    /// The named opacities.
    pub opacity: Option<Vec<ScalarEntry>>,
    /// The blur radii.
    pub blur: Option<Vec<ScalarEntry>>,
    /// The text styles.
    pub typography: Option<Vec<TypographyEntry>>,
    /// The motion tokens.
    pub motion: Option<Vec<MotionEntry>>,
    /// The shadows.
    pub elevation: Option<Vec<ElevationEntry>>,
}

/// A token name as the identifier Swift uses.
pub open spec fn camel(key: Seq<char>) -> Seq<char> {
    camel_case(key, key.len() as int).0
}

/// The lines for some entries, each from the line function, or the first
/// entry's refusal.
pub open spec fn fold_lines<E>(
    entries: Seq<E>,
    count: int,
    line: spec_fn(E) -> Result<Seq<char>, Seq<char>>,
) -> Result<Seq<char>, Seq<char>>
    decreases count,
{
    if count <= 0 {
        Ok(Seq::empty())
    } else {
        match fold_lines(entries, count - 1, line) {
            Err(error) => Err(error),
            Ok(text) => match line(entries[count - 1]) {
                Err(error) => Err(error),
                Ok(more) => Ok(text + more),
            },
        }
    }
}

/// Once an entry is refused, so are the lines for any longer prefix.
proof fn lemma_fold_refusal_stands<E>(
    entries: Seq<E>,
    refused_at: int,
    count: int,
    line: spec_fn(E) -> Result<Seq<char>, Seq<char>>,
)
    requires
        0 <= refused_at <= count,
        fold_lines(entries, refused_at, line) is Err,
    ensures
        fold_lines(entries, count, line) == fold_lines(entries, refused_at, line),
    decreases count - refused_at,
{
    if count > refused_at {
        lemma_fold_refusal_stands(entries, refused_at, count - 1, line);
    }
}

/// The lines for the first `count` entries, when every one of them has a
/// line, are those lines one after another; otherwise there is a refusal.
proof fn lemma_fold_lines_in_order<E>(
    entries: Seq<E>,
    count: int,
    line: spec_fn(E) -> Result<Seq<char>, Seq<char>>,
)
    requires
        0 <= count <= entries.len(),
    ensures
        fold_lines(entries, count, line) is Ok <==> forall|i: int| 0 <= i < count ==> line(entries[i]) is Ok,
        fold_lines(entries, count, line) is Ok ==> fold_lines(entries, count, line)->Ok_0 == Seq::new(
            count as nat,
            |i: int| line(entries[i])->Ok_0,
        ).flatten_alt(),
    decreases count,
{
    if count > 0 {
        lemma_fold_lines_in_order(entries, count - 1, line);
        let lines = Seq::new(count as nat, |i: int| line(entries[i])->Ok_0);
        assert(lines.drop_last() =~= Seq::new((count - 1) as nat, |i: int| line(entries[i])->Ok_0));
        if fold_lines(entries, count - 1, line) is Err {
            lemma_fold_refusal_stands(entries, count - 1, count, line);
        }
    }
}

/// Text, or nothing where there is none.
pub open spec fn optional_doc(description: Option<String>, indent: nat) -> Seq<char> {
    match description {
        Some(text) => spec_doc_comment(text@, indent),
        None => Seq::empty(),
    }
}

/// A colour's declaration, or why it cannot be declared.
pub open spec fn color_declaration(entry: ColorEntry) -> Result<Seq<char>, Seq<char>> {
    match entry.light {
        None => Err("colour `"@ + entry.key@ + "` has no `light` value"@),
        Some(light) => match entry.dark {
            None => Err("colour `"@ + entry.key@ + "` has no `dark` value"@),
            Some(dark) => Ok(optional_doc(entry.description, 4) + "    public static let "@ + camel(entry.key@)
                + " = ColorToken(light: \""@ + light@ + "\", dark: \""@ + dark@ + "\")\n\n"@),
        },
    }
}

/// Declares each colour.
pub open spec fn color_lines() -> spec_fn(ColorEntry) -> Result<Seq<char>, Seq<char>> {
    |entry: ColorEntry| color_declaration(entry)
}

/// Lists each colour under its source name.
pub open spec fn color_listing() -> spec_fn(ColorEntry) -> Result<Seq<char>, Seq<char>> {
    |entry: ColorEntry| Ok("        \""@ + entry.key@ + "\": "@ + camel(entry.key@) + ",\n"@)
}

/// The colour section, or why it cannot be written.
pub open spec fn color_section(color: Option<Vec<ColorEntry>>) -> Result<Seq<char>, Seq<char>> {
    match color {
        None => Err("token source has no `color.tokens` object"@),
        Some(entries) => match fold_lines(entries@, entries@.len() as int, color_lines()) {
            Err(error) => Err(error),
            Ok(declarations) => Ok(COLOR_PREAMBLE@ + declarations + COLOR_LIST_PREAMBLE@ + fold_lines(
                entries@,
                entries@.len() as int,
                color_listing(),
            )->Ok_0 + "    ]\n}\n\n"@),
        },
    }
}

/// The colour section names every colour: it can be written exactly when
/// every colour can be declared, and then it is the preamble, each colour's
/// declaration in source order, the listing preamble, one line per colour in
/// source order giving its source name and its identifier, and the close.
pub proof fn lemma_colour_section_covers_every_colour(entries: Vec<ColorEntry>)
    ensures
        color_section(Some(entries)) is Ok <==> forall|i: int|
            0 <= i < entries@.len() ==> color_declaration(#[trigger] entries@[i]) is Ok,
        color_section(Some(entries)) is Ok ==> color_section(Some(entries))->Ok_0 == COLOR_PREAMBLE@ + Seq::new(
            entries@.len(),
            |i: int| color_declaration(entries@[i])->Ok_0,
        ).flatten() + COLOR_LIST_PREAMBLE@ + Seq::new(
            entries@.len(),
            |i: int| "        \""@ + entries@[i].key@ + "\": "@ + camel(entries@[i].key@) + ",\n"@,
        ).flatten() + "    ]\n}\n\n"@,
{
    let n = entries@.len() as int;
    lemma_fold_lines_in_order(entries@, n, color_lines());
    lemma_fold_lines_in_order(entries@, n, color_listing());
    let declarations = Seq::new(entries@.len(), |i: int| color_declaration(entries@[i])->Ok_0);
    let listing = Seq::new(
        entries@.len(),
        |i: int| "        \""@ + entries@[i].key@ + "\": "@ + camel(entries@[i].key@) + ",\n"@,
    );
    assert(Seq::new(entries@.len(), |i: int| (color_lines())(entries@[i])->Ok_0) =~= declarations);
    assert(Seq::new(entries@.len(), |i: int| (color_listing())(entries@[i])->Ok_0) =~= listing);
    declarations.lemma_flatten_and_flatten_alt_are_equivalent();
    listing.lemma_flatten_and_flatten_alt_are_equivalent();
    assert forall|i: int| 0 <= i < n implies (color_listing())(entries@[i]) is Ok by {
    }
    assert((forall|i: int| 0 <= i < n ==> (color_lines())(entries@[i]) is Ok) <==> (forall|i: int|
        0 <= i < n ==> color_declaration(#[trigger] entries@[i]) is Ok));
}

/// A plain number's declaration, or why it cannot be declared.
pub open spec fn scalar_declaration(group: Seq<char>, entry: ScalarEntry) -> Result<Seq<char>, Seq<char>> {
    match entry.number {
        None => Err("`"@ + group + "."@ + entry.key@ + "` is not a number"@),
        Some(number) => Ok("    public static let "@ + camel(entry.key@) + ": Double = "@ + number@ + "\n"@),
    }
}

/// Declares each number of a group.
pub open spec fn scalar_lines(group: Seq<char>) -> spec_fn(ScalarEntry) -> Result<Seq<char>, Seq<char>> {
    |entry: ScalarEntry| scalar_declaration(group, entry)
}

/// A group of plain numbers as a section, or why it cannot be written.
pub open spec fn scalar_section(
    entries: Option<Vec<ScalarEntry>>,
    group: Seq<char>,
    enum_name: Seq<char>,
    summary: Seq<char>,
) -> Result<Seq<char>, Seq<char>> {
    match entries {
        None => Err("token source has no `"@ + group + ".tokens` object"@),
        Some(entries) => match fold_lines(entries@, entries@.len() as int, scalar_lines(group)) {
            Err(error) => Err(error),
            Ok(declarations) => Ok(spec_doc_comment(summary, 0) + "public enum "@ + enum_name + " {\n"@
                + declarations + "}\n\n"@),
        },
    }
}

/// A text style's declaration, or why it cannot be declared.
pub open spec fn typography_declaration(entry: TypographyEntry) -> Result<Seq<char>, Seq<char>> {
    match entry.size {
        None => Err("typography `"@ + entry.key@ + "` has no `size`"@),
        Some(size) => match entry.weight {
            None => Err("typography `"@ + entry.key@ + "` has no `weight`"@),
            Some(weight) => match entry.text_style {
                None => Err("typography `"@ + entry.key@ + "` has no `textStyle`"@),
                Some(text_style) => Ok("    public static let "@ + camel(entry.key@) + " = TypographyToken(size: "@
                    + size@ + ", weight: \""@ + weight@ + "\", textStyle: \""@ + text_style@ + "\", tracking: "@
                    + (match entry.tracking {
                    Some(tracking) => tracking@,
                    None => "0"@,
                }) + ", monospacedDigits: "@ + (if entry.monospaced_digits == Some(true) {
                    "true"@
                } else {
                    "false"@
                }) + ")\n"@),
            },
        },
    }
}

/// Declares each text style.
pub open spec fn typography_lines() -> spec_fn(TypographyEntry) -> Result<Seq<char>, Seq<char>> {
    |entry: TypographyEntry| typography_declaration(entry)
}

/// The typography section, or why it cannot be written.
pub open spec fn typography_section(typography: Option<Vec<TypographyEntry>>) -> Result<Seq<char>, Seq<char>> {
    match typography {
        None => Err("token source has no `typography.tokens` object"@),
        Some(entries) => match fold_lines(entries@, entries@.len() as int, typography_lines()) {
            Err(error) => Err(error),
            Ok(declarations) => Ok(TYPOGRAPHY_PREAMBLE@ + declarations + "}\n\n"@),
        },
    }
}

/// A motion token's declaration, or why it cannot be declared.
pub open spec fn motion_declaration(entry: MotionEntry) -> Result<Seq<char>, Seq<char>> {
    match entry.duration {
        None => Err("motion `"@ + entry.key@ + "` has no `duration`"@),
        Some(duration) => match entry.curve {
            None => Err("motion `"@ + entry.key@ + "` has no `curve`"@),
            Some(curve) => Ok(optional_doc(entry.description, 4) + "    public static let "@ + camel(entry.key@)
                + " = MotionToken(duration: "@ + duration@ + ", curve: \""@ + curve@ + "\")\n\n"@),
        },
    }
}

/// Declares each motion token.
pub open spec fn motion_lines() -> spec_fn(MotionEntry) -> Result<Seq<char>, Seq<char>> {
    |entry: MotionEntry| motion_declaration(entry)
}

/// The motion section, or why it cannot be written.
pub open spec fn motion_section(motion: Option<Vec<MotionEntry>>) -> Result<Seq<char>, Seq<char>> {
    match motion {
        None => Err("token source has no `motion.tokens` object"@),
        Some(entries) => match fold_lines(entries@, entries@.len() as int, motion_lines()) {
            Err(error) => Err(error),
            Ok(declarations) => Ok(MOTION_PREAMBLE@ + declarations + "}\n\n"@),
        },
    }
}

/// A number as written, zero where there is none.
pub open spec fn or_zero(number: Option<String>) -> Seq<char> {
    match number {
        Some(text) => text@,
        None => "0"@,
    }
}

/// Declares each shadow.
pub open spec fn elevation_lines() -> spec_fn(ElevationEntry) -> Result<Seq<char>, Seq<char>> {
    |entry: ElevationEntry| Ok("    public static let "@ + camel(entry.key@) + " = ElevationToken(y: "@ + or_zero(entry.y)
        + ", blur: "@ + or_zero(entry.blur) + ", opacity: "@ + or_zero(entry.opacity) + ")\n"@)
}

/// The elevation section, or why it cannot be written.
pub open spec fn elevation_section(elevation: Option<Vec<ElevationEntry>>) -> Result<Seq<char>, Seq<char>> {
    match elevation {
        None => Err("token source has no `elevation.tokens` object"@),
        Some(entries) => Ok(ELEVATION_PREAMBLE@ + fold_lines(entries@, entries@.len() as int, elevation_lines())->Ok_0
            + "}\n"@),
    }
}


/// The typography section declares every text style: it can be written
/// exactly when every style can be declared, and then it is the preamble,
/// each declaration in source order, and the close.
pub proof fn lemma_typography_section_covers_every_style(entries: Vec<TypographyEntry>)
    ensures
        typography_section(Some(entries)) is Ok <==> forall|i: int|
            0 <= i < entries@.len() ==> typography_declaration(#[trigger] entries@[i]) is Ok,
        typography_section(Some(entries)) is Ok ==> typography_section(Some(entries))->Ok_0 == TYPOGRAPHY_PREAMBLE@ + Seq::new(
            entries@.len(),
            |i: int| typography_declaration(entries@[i])->Ok_0,
        ).flatten() + "}\n\n"@,
{
    let n = entries@.len() as int;
    lemma_fold_lines_in_order(entries@, n, typography_lines());
    let declarations = Seq::new(entries@.len(), |i: int| typography_declaration(entries@[i])->Ok_0);
    assert(Seq::new(entries@.len(), |i: int| (typography_lines())(entries@[i])->Ok_0) =~= declarations);
    declarations.lemma_flatten_and_flatten_alt_are_equivalent();
    assert((forall|i: int| 0 <= i < n ==> (typography_lines())(entries@[i]) is Ok) <==> (forall|i: int|
        0 <= i < n ==> typography_declaration(#[trigger] entries@[i]) is Ok));
}

/// The motion section declares every motion token: it can be written
/// exactly when every token can be declared, and then it is the preamble,
/// each declaration in source order, and the close.
pub proof fn lemma_motion_section_covers_every_token(entries: Vec<MotionEntry>)
    ensures
        motion_section(Some(entries)) is Ok <==> forall|i: int|
            0 <= i < entries@.len() ==> motion_declaration(#[trigger] entries@[i]) is Ok,
        motion_section(Some(entries)) is Ok ==> motion_section(Some(entries))->Ok_0 == MOTION_PREAMBLE@ + Seq::new(
            entries@.len(),
            |i: int| motion_declaration(entries@[i])->Ok_0,
        ).flatten() + "}\n\n"@,
{
    let n = entries@.len() as int;
    lemma_fold_lines_in_order(entries@, n, motion_lines());
    let declarations = Seq::new(entries@.len(), |i: int| motion_declaration(entries@[i])->Ok_0);
    assert(Seq::new(entries@.len(), |i: int| (motion_lines())(entries@[i])->Ok_0) =~= declarations);
    declarations.lemma_flatten_and_flatten_alt_are_equivalent();
    assert((forall|i: int| 0 <= i < n ==> (motion_lines())(entries@[i]) is Ok) <==> (forall|i: int|
        0 <= i < n ==> motion_declaration(#[trigger] entries@[i]) is Ok));
}

/// A group of plain numbers declares every number: it can be written
/// exactly when every entry is a number, and then it is the summary, the
/// enumeration's opening, each declaration in source order, and the close.
pub proof fn lemma_scalar_section_covers_every_number(entries: Vec<ScalarEntry>, group: Seq<char>, enum_name: Seq<char>, summary: Seq<char>)
    ensures
        scalar_section(Some(entries), group, enum_name, summary) is Ok <==> forall|i: int|
            0 <= i < entries@.len() ==> scalar_declaration(group, #[trigger] entries@[i]) is Ok,
        scalar_section(Some(entries), group, enum_name, summary) is Ok ==> scalar_section(Some(entries), group, enum_name, summary)->Ok_0 == spec_doc_comment(summary, 0) + "public enum "@ + enum_name + " {\n"@ + Seq::new(
            entries@.len(),
            |i: int| scalar_declaration(group, entries@[i])->Ok_0,
        ).flatten() + "}\n\n"@,
{
    let n = entries@.len() as int;
    lemma_fold_lines_in_order(entries@, n, scalar_lines(group));
    let declarations = Seq::new(entries@.len(), |i: int| scalar_declaration(group, entries@[i])->Ok_0);
    assert(Seq::new(entries@.len(), |i: int| (scalar_lines(group))(entries@[i])->Ok_0) =~= declarations);
    declarations.lemma_flatten_and_flatten_alt_are_equivalent();
    assert((forall|i: int| 0 <= i < n ==> (scalar_lines(group))(entries@[i]) is Ok) <==> (forall|i: int|
        0 <= i < n ==> scalar_declaration(group, #[trigger] entries@[i]) is Ok));
}

/// The elevation section declares every shadow, in source order, each with
/// its offset, blur and opacity (zero where the source gives none).
pub proof fn lemma_elevation_section_covers_every_shadow(entries: Vec<ElevationEntry>)
    ensures
        elevation_section(Some(entries)) == Ok::<Seq<char>, Seq<char>>(ELEVATION_PREAMBLE@ + Seq::new(
            entries@.len(),
            |i: int| "    public static let "@ + camel(entries@[i].key@) + " = ElevationToken(y: "@ + or_zero(
                entries@[i].y,
            ) + ", blur: "@ + or_zero(entries@[i].blur) + ", opacity: "@ + or_zero(entries@[i].opacity) + ")\n"@,
        ).flatten() + "}\n"@),
{
    let n = entries@.len() as int;
    lemma_fold_lines_in_order(entries@, n, elevation_lines());
    let declarations = Seq::new(
        entries@.len(),
        |i: int| "    public static let "@ + camel(entries@[i].key@) + " = ElevationToken(y: "@ + or_zero(
            entries@[i].y,
        ) + ", blur: "@ + or_zero(entries@[i].blur) + ", opacity: "@ + or_zero(entries@[i].opacity) + ")\n"@,
    );
    assert(Seq::new(entries@.len(), |i: int| (elevation_lines())(entries@[i])->Ok_0) =~= declarations);
    declarations.lemma_flatten_and_flatten_alt_are_equivalent();
    assert forall|i: int| 0 <= i < n implies (elevation_lines())(entries@[i]) is Ok by {
    }
}

/// A result's text.
pub open spec fn as_text(result: Result<String, String>) -> Result<Seq<char>, Seq<char>> {
    match result {
        Ok(text) => Ok(text@),
        Err(error) => Err(error@),
    }
}

/// One piece of text after another, or the first refusal.
pub open spec fn followed_by(
    first: Result<Seq<char>, Seq<char>>,
    second: Result<Seq<char>, Seq<char>>,
) -> Result<Seq<char>, Seq<char>> {
    match first {
        Err(error) => Err(error),
        Ok(text) => match second {
            Err(error) => Err(error),
            Ok(more) => Ok(text + more),
        },
    }
}

/// The Swift bindings for a token source, or why they cannot be written:
/// the banner, the version, then each group in turn, the first group that
/// cannot be written naming why.
pub open spec fn swift_bindings(source: TokenSource) -> Result<Seq<char>, Seq<char>> {
    match source.version {
        None => Err("token source has no numeric `version`"@),
        Some(version) => {
            let head = BANNER@
                + "public enum DesignTokens {\n    /// Version of the token source this file was generated from.\n    public static let version: Int = "@
                + digits(version as nat) + "\n}\n\n"@;
            followed_by(
                followed_by(
                    followed_by(
                        followed_by(
                            followed_by(
                                followed_by(
                                    followed_by(
                                        followed_by(Ok(head), color_section(source.color)),
                                        scalar_section(
                                            source.spacing,
                                            "spacing"@,
                                            "Spacing"@,
                                            "Layout spacing scale, in points."@,
                                        ),
                                    ),
                                    scalar_section(
                                        source.radius,
                                        "radius"@,
                                        "Radius"@,
                                        "Corner radius scale, in points."@,
                                    ),
                                ),
                                scalar_section(source.opacity, "opacity"@, "Opacity"@, "Named opacities."@),
                            ),
                            scalar_section(source.blur, "blur"@, "Blur"@, "Material blur radii, in points."@),
                        ),
                        typography_section(source.typography),
                    ),
                    motion_section(source.motion),
                ),
                elevation_section(source.elevation),
            )
        },
    }
}

/// The bindings are the banner and version, then the colour, spacing,
/// radius, opacity, blur, typography, motion and elevation sections in that
/// order, each whole; a source without a version, or with a group that
/// cannot be written, is refused, the version first and then the earliest
/// group in that order naming why.
pub proof fn lemma_bindings_are_the_sections_in_order(source: TokenSource)
    ensures
        source.version is None ==> swift_bindings(source) == Err::<Seq<char>, Seq<char>>(
            "token source has no numeric `version`"@,
        ),
        ({
            let sections = seq![
                color_section(source.color),
                scalar_section(source.spacing, "spacing"@, "Spacing"@, "Layout spacing scale, in points."@),
                scalar_section(source.radius, "radius"@, "Radius"@, "Corner radius scale, in points."@),
                scalar_section(source.opacity, "opacity"@, "Opacity"@, "Named opacities."@),
                scalar_section(source.blur, "blur"@, "Blur"@, "Material blur radii, in points."@),
                typography_section(source.typography),
                motion_section(source.motion),
                elevation_section(source.elevation),
            ];
            source.version matches Some(version) ==> {
                &&& (forall|i: int| 0 <= i < 8 ==> sections[i] is Ok) ==> swift_bindings(source) == Ok::<
                    Seq<char>,
                    Seq<char>,
                >(BANNER@
                    + "public enum DesignTokens {\n    /// Version of the token source this file was generated from.\n    public static let version: Int = "@
                    + digits(version as nat) + "\n}\n\n"@ + sections[0]->Ok_0 + sections[1]->Ok_0 + sections[2]->Ok_0
                    + sections[3]->Ok_0 + sections[4]->Ok_0 + sections[5]->Ok_0 + sections[6]->Ok_0
                    + sections[7]->Ok_0)
                &&& forall|k: int|
                    0 <= k < 8 && sections[k] is Err && (forall|i: int| 0 <= i < k ==> sections[i] is Ok)
                        ==> swift_bindings(source) == sections[k]
            }
        }),
{
    let sections = seq![
        color_section(source.color),
        scalar_section(source.spacing, "spacing"@, "Spacing"@, "Layout spacing scale, in points."@),
        scalar_section(source.radius, "radius"@, "Radius"@, "Corner radius scale, in points."@),
        scalar_section(source.opacity, "opacity"@, "Opacity"@, "Named opacities."@),
        scalar_section(source.blur, "blur"@, "Blur"@, "Material blur radii, in points."@),
        typography_section(source.typography),
        motion_section(source.motion),
        elevation_section(source.elevation),
    ];
    if source.version is Some {
        assert forall|k: int|
            0 <= k < 8 && sections[k] is Err && (forall|i: int| 0 <= i < k ==> sections[i] is Ok) implies swift_bindings(
            source,
        ) == sections[k] by {
            if k > 0 {
                assert(sections[0] is Ok);
            }
            if k > 1 {
                assert(sections[1] is Ok);
            }
            if k > 2 {
                assert(sections[2] is Ok);
            }
            if k > 3 {
                assert(sections[3] is Ok);
            }
            if k > 4 {
                assert(sections[4] is Ok);
            }
            if k > 5 {
                assert(sections[5] is Ok);
            }
            if k > 6 {
                assert(sections[6] is Ok);
            }
        }
        if forall|i: int| 0 <= i < 8 ==> sections[i] is Ok {
            assert(sections[0] is Ok && sections[1] is Ok && sections[2] is Ok && sections[3] is Ok);
            assert(sections[4] is Ok && sections[5] is Ok && sections[6] is Ok && sections[7] is Ok);
        }
    }
}

/// Appends text that may be absent.
fn push_optional_doc(text: &mut String, description: &Option<String>, indent: usize)
    ensures
        final(text)@ == old(text)@ + optional_doc(*description, indent as nat),
{
    match description {
        Some(words) => {
            let comment = doc_comment(words.as_str(), indent);
            push_str(text, comment.as_str());
        },
        None => {},
    }
}

/// A refusal naming a token: the words around its name.
fn refusal(before: &str, key: &str, after: &str) -> (error: String)
    ensures
        error@ == before@ + key@ + after@,
{
    let mut error = String::new();
    push_str(&mut error, before);
    push_str(&mut error, key);
    push_str(&mut error, after);
    error
}

/// A colour's declaration, or why it cannot be declared.
fn color_declaration_text(entry: &ColorEntry) -> (result: Result<String, String>)
    ensures
        as_text(result) == color_declaration(*entry),
{
    let light = match &entry.light {
        Some(light) => light,
        None => {
            return Err(refusal("colour `", entry.key.as_str(), "` has no `light` value"));
        },
    };
    let dark = match &entry.dark {
        Some(dark) => dark,
        None => {
            return Err(refusal("colour `", entry.key.as_str(), "` has no `dark` value"));
        },
    };
    let mut text = String::new();
    push_optional_doc(&mut text, &entry.description, 4);
    push_str(&mut text, "    public static let ");
    let identifier = to_camel_case(entry.key.as_str());
    push_str(&mut text, identifier.as_str());
    push_str(&mut text, " = ColorToken(light: \"");
    push_str(&mut text, light.as_str());
    push_str(&mut text, "\", dark: \"");
    push_str(&mut text, dark.as_str());
    push_str(&mut text, "\")\n\n");
    assert(text@ =~= color_declaration(*entry)->Ok_0);
    Ok(text)
}

/// A colour's line in the list of every colour.
fn color_listing_text(entry: &ColorEntry) -> (line: String)
    ensures
        Ok::<Seq<char>, Seq<char>>(line@) == (color_listing())(*entry),
{
    let mut line = String::new();
    push_str(&mut line, "        \"");
    push_str(&mut line, entry.key.as_str());
    push_str(&mut line, "\": ");
    let identifier = to_camel_case(entry.key.as_str());
    push_str(&mut line, identifier.as_str());
    push_str(&mut line, ",\n");
    assert(line@ =~= (color_listing())(*entry)->Ok_0);
    line
}

/// The colour section, or why it cannot be written.
fn color_section_text(color: &Option<Vec<ColorEntry>>) -> (result: Result<String, String>)
    ensures
        as_text(result) == color_section(*color),
{
    let entries = match color {
        Some(entries) => entries,
        None => {
            let mut error = String::new();
            push_str(&mut error, "token source has no `color.tokens` object");
            return Err(error);
        },
    };
    let mut declarations = String::new();
    let mut listing = String::new();
    let mut index: usize = 0;
    while index < entries.len()
        invariant
            *color == Some(*entries),
            index <= entries@.len(),
            fold_lines(entries@, index as int, color_lines()) == Ok::<Seq<char>, Seq<char>>(declarations@),
            fold_lines(entries@, index as int, color_listing()) == Ok::<Seq<char>, Seq<char>>(listing@),
        decreases entries@.len() - index,
    {
        match color_declaration_text(&entries[index]) {
            Err(error) => {
                proof {
                    assert((color_lines())(entries@[index as int]) == color_declaration(entries@[index as int]));
                    assert(fold_lines(entries@, index as int + 1, color_lines()) == Err::<Seq<char>, Seq<char>>(error@));
                    lemma_fold_refusal_stands(entries@, index as int + 1, entries@.len() as int, color_lines());
                }
                return Err(error);
            },
            Ok(text) => {
                push_str(&mut declarations, text.as_str());
            },
        }
        let line = color_listing_text(&entries[index]);
        push_str(&mut listing, line.as_str());
        index += 1;
    }
    let mut text = String::new();
    push_str(&mut text, COLOR_PREAMBLE);
    push_str(&mut text, declarations.as_str());
    push_str(&mut text, COLOR_LIST_PREAMBLE);
    push_str(&mut text, listing.as_str());
    push_str(&mut text, "    ]\n}\n\n");
    Ok(text)
}

/// A plain number's declaration, or why it cannot be declared.
fn scalar_declaration_text(group: &str, entry: &ScalarEntry) -> (result: Result<String, String>)
    ensures
        as_text(result) == scalar_declaration(group@, *entry),
{
    let number = match &entry.number {
        Some(number) => number,
        None => {
            let mut error = String::new();
            push_str(&mut error, "`");
            push_str(&mut error, group);
            push_str(&mut error, ".");
            push_str(&mut error, entry.key.as_str());
            push_str(&mut error, "` is not a number");
            assert(error@ =~= scalar_declaration(group@, *entry)->Err_0);
            return Err(error);
        },
    };
    let mut text = String::new();
    push_str(&mut text, "    public static let ");
    let identifier = to_camel_case(entry.key.as_str());
    push_str(&mut text, identifier.as_str());
    push_str(&mut text, ": Double = ");
    push_str(&mut text, number.as_str());
    push_str(&mut text, "\n");
    assert(text@ =~= scalar_declaration(group@, *entry)->Ok_0);
    Ok(text)
}

/// A group of plain numbers as a section, or why it cannot be written.
fn scalar_section_text(group_entries: &Option<Vec<ScalarEntry>>, group: &str, enum_name: &str, summary: &str) -> (result:
    Result<String, String>)
    ensures
        as_text(result) == scalar_section(*group_entries, group@, enum_name@, summary@),
{
    let entries = match group_entries {
        Some(entries) => entries,
        None => {
            return Err(refusal("token source has no `", group, ".tokens` object"));
        },
    };
    let mut declarations = String::new();
    let mut index: usize = 0;
    while index < entries.len()
        invariant
            *group_entries == Some(*entries),
            index <= entries@.len(),
            fold_lines(entries@, index as int, scalar_lines(group@)) == Ok::<Seq<char>, Seq<char>>(declarations@),
        decreases entries@.len() - index,
    {
        match scalar_declaration_text(group, &entries[index]) {
            Err(error) => {
                proof {
                    assert((scalar_lines(group@))(entries@[index as int]) == scalar_declaration(group@, entries@[index as int]));
                    assert(fold_lines(entries@, index as int + 1, scalar_lines(group@)) == Err::<Seq<char>, Seq<char>>(error@));
                    lemma_fold_refusal_stands(entries@, index as int + 1, entries@.len() as int, scalar_lines(group@));
                }
                return Err(error);
            },
            Ok(text) => {
                push_str(&mut declarations, text.as_str());
            },
        }
        index += 1;
    }
    let mut text = doc_comment(summary, 0);
    push_str(&mut text, "public enum ");
    push_str(&mut text, enum_name);
    push_str(&mut text, " {\n");
    push_str(&mut text, declarations.as_str());
    push_str(&mut text, "}\n\n");
    Ok(text)
}

/// A text style's declaration, or why it cannot be declared.
fn typography_declaration_text(entry: &TypographyEntry) -> (result: Result<String, String>)
    ensures
        as_text(result) == typography_declaration(*entry),
{
    let size = match &entry.size {
        Some(size) => size,
        None => {
            return Err(refusal("typography `", entry.key.as_str(), "` has no `size`"));
        },
    };
    let weight = match &entry.weight {
        Some(weight) => weight,
        None => {
            return Err(refusal("typography `", entry.key.as_str(), "` has no `weight`"));
        },
    };
    let text_style = match &entry.text_style {
        Some(text_style) => text_style,
        None => {
            return Err(refusal("typography `", entry.key.as_str(), "` has no `textStyle`"));
        },
    };
    let mut text = String::new();
    push_str(&mut text, "    public static let ");
    let identifier = to_camel_case(entry.key.as_str());
    push_str(&mut text, identifier.as_str());
    push_str(&mut text, " = TypographyToken(size: ");
    push_str(&mut text, size.as_str());
    push_str(&mut text, ", weight: \"");
    push_str(&mut text, weight.as_str());
    push_str(&mut text, "\", textStyle: \"");
    push_str(&mut text, text_style.as_str());
    push_str(&mut text, "\", tracking: ");
    match &entry.tracking {
        Some(tracking) => push_str(&mut text, tracking.as_str()),
        None => push_str(&mut text, "0"),
    }
    push_str(&mut text, ", monospacedDigits: ");
    match entry.monospaced_digits {
        Some(true) => push_str(&mut text, "true"),
        _ => push_str(&mut text, "false"),
    }
    push_str(&mut text, ")\n");
    assert(text@ =~= typography_declaration(*entry)->Ok_0);
    Ok(text)
}

/// The typography section, or why it cannot be written.
fn typography_section_text(typography: &Option<Vec<TypographyEntry>>) -> (result: Result<String, String>)
    ensures
        as_text(result) == typography_section(*typography),
{
    let entries = match typography {
        Some(entries) => entries,
        None => {
            let mut error = String::new();
            push_str(&mut error, "token source has no `typography.tokens` object");
            return Err(error);
        },
    };
    let mut declarations = String::new();
    let mut index: usize = 0;
    while index < entries.len()
        invariant
            *typography == Some(*entries),
            index <= entries@.len(),
            fold_lines(entries@, index as int, typography_lines()) == Ok::<Seq<char>, Seq<char>>(declarations@),
        decreases entries@.len() - index,
    {
        match typography_declaration_text(&entries[index]) {
            Err(error) => {
                proof {
                    assert((typography_lines())(entries@[index as int]) == typography_declaration(entries@[index as int]));
                    assert(fold_lines(entries@, index as int + 1, typography_lines()) == Err::<Seq<char>, Seq<char>>(error@));
                    lemma_fold_refusal_stands(entries@, index as int + 1, entries@.len() as int, typography_lines());
                }
                return Err(error);
            },
            Ok(text) => {
                push_str(&mut declarations, text.as_str());
            },
        }
        index += 1;
    }
    let mut text = String::new();
    push_str(&mut text, TYPOGRAPHY_PREAMBLE);
    push_str(&mut text, declarations.as_str());
    push_str(&mut text, "}\n\n");
    Ok(text)
}

/// A motion token's declaration, or why it cannot be declared.
fn motion_declaration_text(entry: &MotionEntry) -> (result: Result<String, String>)
    ensures
        as_text(result) == motion_declaration(*entry),
{
    let duration = match &entry.duration {
        Some(duration) => duration,
        None => {
            return Err(refusal("motion `", entry.key.as_str(), "` has no `duration`"));
        },
    };
    let curve = match &entry.curve {
        Some(curve) => curve,
        None => {
            return Err(refusal("motion `", entry.key.as_str(), "` has no `curve`"));
        },
    };
    let mut text = String::new();
    push_optional_doc(&mut text, &entry.description, 4);
    push_str(&mut text, "    public static let ");
    let identifier = to_camel_case(entry.key.as_str());
    push_str(&mut text, identifier.as_str());
    push_str(&mut text, " = MotionToken(duration: ");
    push_str(&mut text, duration.as_str());
    push_str(&mut text, ", curve: \"");
    push_str(&mut text, curve.as_str());
    push_str(&mut text, "\")\n\n");
    assert(text@ =~= motion_declaration(*entry)->Ok_0);
    Ok(text)
}

/// The motion section, or why it cannot be written.
fn motion_section_text(motion: &Option<Vec<MotionEntry>>) -> (result: Result<String, String>)
    ensures
        as_text(result) == motion_section(*motion),
{
    let entries = match motion {
        Some(entries) => entries,
        None => {
            let mut error = String::new();
            push_str(&mut error, "token source has no `motion.tokens` object");
            return Err(error);
        },
    };
    let mut declarations = String::new();
    let mut index: usize = 0;
    while index < entries.len()
        invariant
            *motion == Some(*entries),
            index <= entries@.len(),
            fold_lines(entries@, index as int, motion_lines()) == Ok::<Seq<char>, Seq<char>>(declarations@),
        decreases entries@.len() - index,
    {
        match motion_declaration_text(&entries[index]) {
            Err(error) => {
                proof {
                    assert((motion_lines())(entries@[index as int]) == motion_declaration(entries@[index as int]));
                    assert(fold_lines(entries@, index as int + 1, motion_lines()) == Err::<Seq<char>, Seq<char>>(error@));
                    lemma_fold_refusal_stands(entries@, index as int + 1, entries@.len() as int, motion_lines());
                }
                return Err(error);
            },
            Ok(text) => {
                push_str(&mut declarations, text.as_str());
            },
        }
        index += 1;
    }
    let mut text = String::new();
    push_str(&mut text, MOTION_PREAMBLE);
    push_str(&mut text, declarations.as_str());
    push_str(&mut text, "}\n\n");
    Ok(text)
}

/// Appends a number as written, or zero.
fn push_or_zero(text: &mut String, number: &Option<String>)
    ensures
        final(text)@ == old(text)@ + or_zero(*number),
{
    match number {
        Some(number) => push_str(text, number.as_str()),
        None => push_str(text, "0"),
    }
}

/// The elevation section, or why it cannot be written.
fn elevation_section_text(elevation: &Option<Vec<ElevationEntry>>) -> (result: Result<String, String>)
    ensures
        as_text(result) == elevation_section(*elevation),
{
    let entries = match elevation {
        Some(entries) => entries,
        None => {
            let mut error = String::new();
            push_str(&mut error, "token source has no `elevation.tokens` object");
            return Err(error);
        },
    };
    let mut declarations = String::new();
    let mut index: usize = 0;
    while index < entries.len()
        invariant
            *elevation == Some(*entries),
            index <= entries@.len(),
            fold_lines(entries@, index as int, elevation_lines()) == Ok::<Seq<char>, Seq<char>>(declarations@),
        decreases entries@.len() - index,
    {
        let entry = &entries[index];
        let ghost before = declarations@;
        push_str(&mut declarations, "    public static let ");
        let identifier = to_camel_case(entry.key.as_str());
        push_str(&mut declarations, identifier.as_str());
        push_str(&mut declarations, " = ElevationToken(y: ");
        push_or_zero(&mut declarations, &entry.y);
        push_str(&mut declarations, ", blur: ");
        push_or_zero(&mut declarations, &entry.blur);
        push_str(&mut declarations, ", opacity: ");
        push_or_zero(&mut declarations, &entry.opacity);
        push_str(&mut declarations, ")\n");
        assert(declarations@ =~= before + (elevation_lines())(*entry)->Ok_0);
        index += 1;
    }
    let mut text = String::new();
    push_str(&mut text, ELEVATION_PREAMBLE);
    push_str(&mut text, declarations.as_str());
    push_str(&mut text, "}\n");
    Ok(text)
}

/// Appends a section, or hands back why it could not be written.
fn push_section(text: &mut String, section: Result<String, String>) -> (result: Result<(), String>)
    ensures
        followed_by(Ok(old(text)@), as_text(section)) == (match result {
            Ok(()) => Ok::<Seq<char>, Seq<char>>(final(text)@),
            Err(error) => Err::<Seq<char>, Seq<char>>(error@),
        }),
{
    match section {
        Ok(more) => {
            push_str(text, more.as_str());
            Ok(())
        },
        Err(error) => Err(error),
    }
}

/// Renders the Swift bindings for a token source: plain structures and
/// constants, each group in turn. Refused, naming why, for a source without
/// a whole-number version, without a group, or with a token the group's
/// declaration needs a value for and the source does not give.
pub fn generate_swift(source: &TokenSource) -> (result: Result<String, String>)
    ensures
        as_text(result) == swift_bindings(*source),
{
    let version = match source.version {
        Some(version) => version,
        None => {
            let mut error = String::new();
            push_str(&mut error, "token source has no numeric `version`");
            return Err(error);
        },
    };
    let mut out = header();
    push_str(
        &mut out,
        "public enum DesignTokens {\n    /// Version of the token source this file was generated from.\n    public static let version: Int = ",
    );
    push_digits(&mut out, version as u128);
    push_str(&mut out, "\n}\n\n");
    if let Err(error) = push_section(&mut out, color_section_text(&source.color)) {
        return Err(error);
    }
    if let Err(error) = push_section(
        &mut out,
        scalar_section_text(&source.spacing, "spacing", "Spacing", "Layout spacing scale, in points."),
    ) {
        return Err(error);
    }
    if let Err(error) = push_section(
        &mut out,
        scalar_section_text(&source.radius, "radius", "Radius", "Corner radius scale, in points."),
    ) {
        return Err(error);
    }
    if let Err(error) = push_section(&mut out, scalar_section_text(&source.opacity, "opacity", "Opacity", "Named opacities.")) {
        return Err(error);
    }
    if let Err(error) = push_section(&mut out, scalar_section_text(&source.blur, "blur", "Blur", "Material blur radii, in points.")) {
        return Err(error);
    }
    if let Err(error) = push_section(&mut out, typography_section_text(&source.typography)) {
        return Err(error);
    }
    if let Err(error) = push_section(&mut out, motion_section_text(&source.motion)) {
        return Err(error);
    }
    if let Err(error) = push_section(&mut out, elevation_section_text(&source.elevation)) {
        return Err(error);
    }
    Ok(out)
}

} // verus!
