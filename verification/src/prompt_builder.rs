//! The prompts sent to the text generator.

use crate::text::{join, joined};
use crate::types::CardRequest;
use vstd::prelude::*;

verus! {

pub const SYSTEM_PREAMBLE_STRICT: &'static str = "\
You are an expert language learning flashcard generator for Anki. \
Your job is to create high-quality, accurate flashcards that help learners study effectively.

Rules you MUST follow:
1. Output ONLY a single valid JSON object. No markdown, no explanation, no extra text.
2. Use the EXACT field names provided — do not rename, abbreviate, or misspell them.
3. Every field must be filled with useful content. Never leave a field empty.
4. For Japanese content: use proper kanji/kana, provide accurate furigana readings, and natural example sentences.
5. For grammar points: include the grammatical structure, its meaning, JLPT level if applicable, and a natural example.
6. For vocabulary: include the word, reading, meaning, part of speech, and a contextual example sentence.
7. Keep content concise but complete — each field should serve the learner.";

pub const SYSTEM_PREAMBLE_OPTIONAL: &'static str = "\
You are an expert language learning flashcard generator for Anki. \
Your job is to create high-quality, accurate flashcards that help learners study effectively.

Rules you MUST follow:
1. Output ONLY a single valid JSON object. No markdown, no explanation, no extra text.
2. Use the EXACT field names provided — do not rename, abbreviate, or misspell them.
3. Fill fields with useful content when relevant. You MAY omit or leave empty fields that are not crucial or not applicable to this specific card.
4. For Japanese content: use proper kanji/kana, provide accurate furigana readings, and natural example sentences when applicable.
5. For grammar points: include the grammatical structure, its meaning, JLPT level if applicable, and a natural example when possible.
6. For vocabulary: include the word, reading, meaning, part of speech, and a contextual example sentence when relevant.
7. Keep content concise but complete — only include fields that serve the learner for this specific topic.";

/// Which of the two sets of instructions a prompt carries.
#[derive(Clone, Copy, Debug, PartialEq, Eq, Structural)]
pub enum PromptMode {
    /// Every field must be filled.
    Strict,
    /// Fields may be left out.
    Optional,
}

impl PromptMode {
    /// `Optional` where fields may be left out, `Strict` where not.
    pub fn from_optional(optional_fields: bool) -> (mode: Self)
        ensures
            mode == prompt_mode(optional_fields),
    {
        if optional_fields {
            PromptMode::Optional
        } else {
            PromptMode::Strict
        }
    }
}

/// The prompt mode of a request.
pub open spec fn prompt_mode(optional_fields: bool) -> PromptMode {
    if optional_fields {
        PromptMode::Optional
    } else {
        PromptMode::Strict
    }
}

/// The rules that open a prompt.
pub open spec fn preamble(mode: PromptMode) -> Seq<char> {
    match mode {
        PromptMode::Strict => SYSTEM_PREAMBLE_STRICT@,
        PromptMode::Optional => SYSTEM_PREAMBLE_OPTIONAL@,
    }
}

/// Each name between double quotes.
pub open spec fn quoted(names: Seq<Seq<char>>) -> Seq<Seq<char>> {
    Seq::new(names.len(), |i: int| "\""@ + names[i] + "\""@)
}

/// The names between double quotes, separated by a comma and a space.
pub open spec fn fields_list(names: Seq<Seq<char>>) -> Seq<char> {
    joined(quoted(names), ", "@)
}

/// What a prompt says about the keys of the answer.
pub open spec fn field_instruction(mode: PromptMode, names: Seq<Seq<char>>) -> Seq<char> {
    match mode {
        PromptMode::Strict => "Required JSON keys: ["@ + fields_list(names)
            + "]\n\nRespond with a single JSON object using exactly those keys. Every value must be a non-empty string with real content."@,
        PromptMode::Optional => "Available JSON keys (include only relevant ones): ["@
            + fields_list(names)
            + "]\n\nRespond with a single JSON object. Include only the fields that are relevant and have meaningful content for this topic."@,
    }
}

/// The prompt for one card.
pub open spec fn prompt_text(
    mode: PromptMode,
    description: Seq<char>,
    note_type: Seq<char>,
    names: Seq<Seq<char>>,
) -> Seq<char> {
    preamble(mode) + "\n\n---\nTask: Generate a flashcard.\nTopic: "@ + description
        + "\nNote type: "@ + note_type + "\n"@ + field_instruction(mode, names)
        + "\nNow generate the JSON:"@
}

/// How a prompt names the items generated before: the labels separated by a
/// comma and a space, or `none yet` where there is none.
pub open spec fn used_list(used: Seq<Seq<char>>) -> Seq<char> {
    if used.len() == 0 {
        "none yet"@
    } else {
        joined(used, ", "@)
    }
}

/// The prompt for the next card of a series, of which `used` were generated
/// before.
pub open spec fn next_prompt_text(
    mode: PromptMode,
    description: Seq<char>,
    note_type: Seq<char>,
    names: Seq<Seq<char>>,
    used: Seq<Seq<char>>,
) -> Seq<char> {
    preamble(mode)
        + "\n\n---\nTask: Generate the NEXT item in a series. Pick one that has NOT been generated yet.\nTopic: "@
        + description + "\nNote type: "@ + note_type + "\n"@ + field_instruction(mode, names)
        + "\n\nAlready generated (DO NOT repeat any of these):\n"@ + used_list(used)
        + "\n\nNow generate the JSON for the next item:"@
}

/// Builds the prompts.
pub struct PromptBuilder;

impl PromptBuilder {
    /// The names between double quotes, separated by a comma and a space.
    pub fn format_fields(fields: &[String]) -> (list: String)
        ensures
            list@ == fields_list(fields.deep_view()),
    {
        let mut parts: Vec<String> = Vec::new();
        let mut i: usize = 0;
        while i < fields.len()
            invariant
                i <= fields.len(),
                parts.deep_view() == quoted(fields.deep_view().take(i as int)),
            decreases fields.len() - i,
        {
            let ghost before = parts.deep_view();
            let mut part = String::from_str("\"");
            part.append(fields[i].as_str());
            part.append("\"");
            parts.push(part);
            assert(parts.deep_view() =~= before.push(part@));
            assert(quoted(fields.deep_view().take(i + 1)) =~= before.push(part@));
            i = i + 1;
        }
        assert(fields.deep_view().take(fields.len() as int) =~= fields.deep_view());
        join(parts.as_slice(), ", ")
    }

    /// The rules that open a prompt.
    fn preamble_of(mode: PromptMode) -> (text: &'static str)
        ensures
            text@ == preamble(mode),
    {
        match mode {
            PromptMode::Strict => SYSTEM_PREAMBLE_STRICT,
            PromptMode::Optional => SYSTEM_PREAMBLE_OPTIONAL,
        }
    }

    /// What a prompt says about the keys of the answer.
    fn instruction_of(mode: PromptMode, fields: &[String]) -> (text: String)
        ensures
            text@ == field_instruction(mode, fields.deep_view()),
    {
        let list = Self::format_fields(fields);
        match mode {
            PromptMode::Strict => {
                let mut text = String::from_str("Required JSON keys: [");
                text.append(list.as_str());
                text.append(
                    "]\n\nRespond with a single JSON object using exactly those keys. Every value must be a non-empty string with real content.",
                );
                text
            },
            PromptMode::Optional => {
                let mut text = String::from_str(
                    "Available JSON keys (include only relevant ones): [",
                );
                text.append(list.as_str());
                text.append(
                    "]\n\nRespond with a single JSON object. Include only the fields that are relevant and have meaningful content for this topic.",
                );
                text
            },
        }
    }

    /// The prompt that asks for one card as the request describes it.
    pub fn build(req: &CardRequest) -> (prompt: String)
        ensures
            prompt@ == prompt_text(
                prompt_mode(req.optional_fields),
                req.description@,
                req.note_type@,
                req.fields.deep_view(),
            ),
    {
        let mode = PromptMode::from_optional(req.optional_fields);
        let instruction = Self::instruction_of(mode, req.fields.as_slice());
        let mut prompt = String::from_str(Self::preamble_of(mode));
        prompt.append("\n\n---\nTask: Generate a flashcard.\nTopic: ");
        prompt.append(req.description.as_str());
        prompt.append("\nNote type: ");
        prompt.append(req.note_type.as_str());
        prompt.append("\n");
        prompt.append(instruction.as_str());
        prompt.append("\nNow generate the JSON:");
        prompt
    }

    /// The prompt that asks for the next card of a series and names the
    /// items generated before, which are not to be repeated.
    pub fn build_next(req: &CardRequest, used: &[String]) -> (prompt: String)
        ensures
            prompt@ == next_prompt_text(
                prompt_mode(req.optional_fields),
                req.description@,
                req.note_type@,
                req.fields.deep_view(),
                used.deep_view(),
            ),
    {
        let mode = PromptMode::from_optional(req.optional_fields);
        let instruction = Self::instruction_of(mode, req.fields.as_slice());
        let used_text = if used.len() == 0 {
            String::from_str("none yet")
        } else {
            join(used, ", ")
        };
        let mut prompt = String::from_str(Self::preamble_of(mode));
        prompt.append(
            "\n\n---\nTask: Generate the NEXT item in a series. Pick one that has NOT been generated yet.\nTopic: ",
        );
        prompt.append(req.description.as_str());
        prompt.append("\nNote type: ");
        prompt.append(req.note_type.as_str());
        prompt.append("\n");
        prompt.append(instruction.as_str());
        prompt.append("\n\nAlready generated (DO NOT repeat any of these):\n");
        prompt.append(used_text.as_str());
        prompt.append("\n\nNow generate the JSON for the next item:");
        prompt
    }
}

} // verus!
