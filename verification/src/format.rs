//! Selection of the output format.

use vstd::prelude::*;
use vstd::string::*;
use crate::upload::ParamValue;

verus! {

/// The formats that the converter is asked for.
#[derive(Clone, Copy, Debug, PartialEq, Eq, Structural)]
pub enum OutputFormat {
    /// Geography Markup Language, the default.
    Gml,
    /// GeoJSON.
    GeoJson,
}

/// Whether `c` is the letter `lower` or its capital `upper`.
pub open spec fn is_letter(c: char, lower: char, upper: char) -> bool {
    c == lower || c == upper
}

/// Whether `s` spells `geojson`, in any mix of upper and lower case.
pub open spec fn names_geojson(s: Seq<char>) -> bool {
    &&& s.len() == 7
    &&& is_letter(s[0], 'g', 'G')
    &&& is_letter(s[1], 'e', 'E')
    &&& is_letter(s[2], 'o', 'O')
    &&& is_letter(s[3], 'j', 'J')
    &&& is_letter(s[4], 's', 'S')
    &&& is_letter(s[5], 'o', 'O')
    &&& is_letter(s[6], 'n', 'N')
}

/// The format that the value of the format field selects: GeoJSON where it
/// is a text that spells `geojson`, GML for anything else and where the
/// field is missing.
pub open spec fn selected_format(value: Option<&ParamValue>) -> OutputFormat {
    match value {
        Some(ParamValue::Text(text)) => if names_geojson(text@) {
            OutputFormat::GeoJson
        } else {
            OutputFormat::Gml
        },
        _ => OutputFormat::Gml,
    }
}

impl OutputFormat {
    /// The canonical name of the format.
    pub open spec fn spec_canonical_name(self) -> Seq<char> {
        match self {
            OutputFormat::Gml => "GML"@,
            OutputFormat::GeoJson => "GEOJSON"@,
        }
    }

    /// The content type of a document in this format.
    pub open spec fn spec_mime_type(self) -> Seq<char> {
        match self {
            OutputFormat::Gml => "text/xml"@,
            OutputFormat::GeoJson => "text/json"@,
        }
    }

    /// The name by which the converter is asked for the format.
    pub open spec fn spec_driver_name(self) -> Seq<char> {
        match self {
            OutputFormat::Gml => "GML"@,
            OutputFormat::GeoJson => "geojson"@,
        }
    }

    /// The canonical name of the format: `GML` or `GEOJSON`.
    pub fn canonical_name(&self) -> (name: &'static str)
        ensures
            name@ == self.spec_canonical_name(),
    {
        match self {
            OutputFormat::Gml => "GML",
            OutputFormat::GeoJson => "GEOJSON",
        }
    }

    /// The content type of a document in this format: `text/xml` or
    /// `text/json`.
    pub fn mime_type(&self) -> (mime: &'static str)
        ensures
            mime@ == self.spec_mime_type(),
    {
        match self {
            OutputFormat::Gml => "text/xml",
            OutputFormat::GeoJson => "text/json",
        }
    }

    /// The name handed to the converter after its format flag: `GML` or
    /// `geojson`.
    pub fn driver_name(&self) -> (name: &'static str)
        ensures
            name@ == self.spec_driver_name(),
    {
        match self {
            OutputFormat::Gml => "GML",
            OutputFormat::GeoJson => "geojson",
        }
    }
}

/// Tells whether the character at `i` is `lower` or `upper`.
fn letter_at(text: &str, i: usize, lower: char, upper: char) -> (found: bool)
    requires
        i < text@.len(),
    ensures
        found == is_letter(text@[i as int], lower, upper),
{
    let c = text.get_char(i);
    c == lower || c == upper
}

/// Tells whether `text` spells `geojson`, in any mix of upper and lower case.
pub fn is_geojson_name(text: &str) -> (found: bool)
    ensures
        found == names_geojson(text@),
{
    text.unicode_len() == 7 && letter_at(text, 0, 'g', 'G') && letter_at(text, 1, 'e', 'E')
        && letter_at(text, 2, 'o', 'O') && letter_at(text, 3, 'j', 'J') && letter_at(
        text,
        4,
        's',
        'S',
    ) && letter_at(text, 5, 'o', 'O') && letter_at(text, 6, 'n', 'N')
}

/// Reads the output format from the value of the format field. Every value
/// selects a format: there is no error.
pub fn get_output_format(value: Option<&ParamValue>) -> (format: OutputFormat)
    ensures
        format == selected_format(value),
{
    match value {
        Some(ParamValue::Text(text)) => {
            if is_geojson_name(text.as_str()) {
                OutputFormat::GeoJson
            } else {
                OutputFormat::Gml
            }
        },
        _ => OutputFormat::Gml,
    }
}

/// A text that differs from `geojson` in nothing but the case of its
/// letters selects GeoJSON; the lower-case and the upper-case spelling do.
pub proof fn lemma_geojson_any_case(s: Seq<char>)
    requires
        s.len() == 7,
        forall|i: int|
            0 <= i < 7 ==> #[trigger] s[i] == "geojson"@[i] || s[i] == "GEOJSON"@[i],
    ensures
        names_geojson(s),
        names_geojson("geojson"@),
        names_geojson("GEOJSON"@),
{
    reveal_strlit("geojson");
    reveal_strlit("GEOJSON");
    assert(s[0] == 'g' || s[0] == 'G');
    assert(s[1] == 'e' || s[1] == 'E');
    assert(s[2] == 'o' || s[2] == 'O');
    assert(s[3] == 'j' || s[3] == 'J');
    assert(s[4] == 's' || s[4] == 'S');
    assert(s[5] == 'o' || s[5] == 'O');
    assert(s[6] == 'n' || s[6] == 'N');
}

/// GeoJSON goes with the canonical name `GEOJSON` and the content type
/// `text/json`, GML with `GML` and `text/xml`; the two formats share neither.
pub proof fn lemma_format_table(format: OutputFormat)
    ensures
        format == OutputFormat::GeoJson <==> format.spec_canonical_name() == "GEOJSON"@,
        format == OutputFormat::GeoJson <==> format.spec_mime_type() == "text/json"@,
        format == OutputFormat::Gml <==> format.spec_canonical_name() == "GML"@,
        format == OutputFormat::Gml <==> format.spec_mime_type() == "text/xml"@,
{
    reveal_strlit("GML");
    reveal_strlit("GEOJSON");
    reveal_strlit("text/xml");
    reveal_strlit("text/json");
    assert("GML"@.len() != "GEOJSON"@.len());
    assert("text/xml"@[5] != "text/json"@[5]);
}

} // verus!
