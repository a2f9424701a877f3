//! The minibuffer prompt: one line of input with a cursor, and a list of
//! suggestions to pick from.

use crate::commands::Suggestion;
use crate::text::{
    byte_len, byte_length, chars_before, chars_from, inserted_at, lemma_ascii_boundaries,
    lemma_boundary_after_prefix, lemma_boundary_splits, lemma_encode_utf8_concat,
    lemma_remove_undoes_insert, on_char_boundary, removed_at, string_insert, string_remove,
    utf8_width,
};
use vstd::prelude::*;
use vstd::utf8::is_ascii_chars;

verus! {

/// What the prompt asks for, and so what happens when the user confirms.
#[derive(Debug, Clone, PartialEq)]
pub enum PromptType {
    OpenFile,
    SaveFileAs,
    Search,
    /// Asks for the replacement of `search`.
    Replace { search: String },
    /// Asks for a command by name.
    Command,
}

/// The state of the minibuffer.
///
/// The cursor is a byte offset into `input`. Text is inserted and removed a
/// character at a time, the cursor moves a byte at a time: in ASCII text that
/// is the same, in other text a move can leave the cursor inside a character,
/// where nothing can be typed or erased. See [`Prompt::cursor_valid`].
#[derive(Debug, Clone)]
pub struct Prompt {
    /// What is shown before the input, such as "Find file: ".
    pub message: String,
    pub input: String,
    /// Byte offset of the cursor in `input`.
    pub cursor_pos: usize,
    pub prompt_type: PromptType,
    pub suggestions: Vec<Suggestion>,
    /// Index into `suggestions` of the one picked.
    pub selected_suggestion: Option<usize>,
}

impl Prompt {
    /// The cursor stands where a character starts, or at the end of the input.
    pub open spec fn cursor_valid(&self) -> bool {
        on_char_boundary(self.input@, self.cursor_pos as int)
    }

    /// The selection, if there is one, points at a suggestion.
    pub open spec fn selection_valid(&self) -> bool {
        self.selected_suggestion matches Some(i) ==> i < self.suggestions@.len()
    }

    /// Cursor and selection both point at something.
    pub open spec fn well_formed(&self) -> bool {
        self.cursor_valid() && self.selection_valid()
    }

    /// Everything but the input and the cursor is as in `before`.
    pub open spec fn same_frame(&self, before: &Prompt) -> bool {
        &&& self.message == before.message
        &&& self.prompt_type == before.prompt_type
        &&& self.suggestions == before.suggestions
        &&& self.selected_suggestion == before.selected_suggestion
    }

    /// The value of the suggestion picked, if the selection points at one.
    pub open spec fn spec_selected_value(&self) -> Option<Seq<char>> {
        match self.selected_suggestion {
            Some(i) if i < self.suggestions@.len() => Some(self.suggestions@[i as int]@.chosen()),
            _ => None,
        }
    }

    /// An empty prompt without suggestions.
    pub fn new(message: String, prompt_type: PromptType) -> (p: Self)
        ensures
            p.message == message,
            p.prompt_type == prompt_type,
            p.input@ == Seq::<char>::empty(),
            p.cursor_pos == 0,
            p.suggestions@ == Seq::<Suggestion>::empty(),
            p.selected_suggestion == None::<usize>,
            p.well_formed(),
    {
        Self {
            message,
            input: String::new(),
            cursor_pos: 0,
            prompt_type,
            suggestions: Vec::new(),
            selected_suggestion: None,
        }
    }

    /// An empty prompt with suggestions, the first of them picked.
    pub fn with_suggestions(
        message: String,
        prompt_type: PromptType,
        suggestions: Vec<Suggestion>,
    ) -> (p: Self)
        ensures
            p.message == message,
            p.prompt_type == prompt_type,
            p.input@ == Seq::<char>::empty(),
            p.cursor_pos == 0,
            p.suggestions == suggestions,
            p.selected_suggestion == if suggestions@.len() == 0 {
                None::<usize>
            } else {
                Some(0usize)
            },
            p.well_formed(),
    {
        let selected_suggestion = if suggestions.is_empty() {
            None
        } else {
            Some(0)
        };
        Self {
            message,
            input: String::new(),
            cursor_pos: 0,
            prompt_type,
            suggestions,
            selected_suggestion,
        }
    }

    /// Moves the cursor one byte to the left, unless it is at the start.
    pub fn cursor_left(&mut self)
        ensures
            *final(self) == (Prompt {
                cursor_pos: if old(self).cursor_pos > 0 {
                    (old(self).cursor_pos - 1) as usize
                } else {
                    0
                },
                ..*old(self)
            }),
            is_ascii_chars(old(self).input@) && old(self).cursor_valid()
                ==> final(self).cursor_valid(),
    {
        proof {
            if is_ascii_chars(self.input@) {
                lemma_ascii_boundaries(self.input@, self.cursor_pos as int);
                lemma_ascii_boundaries(self.input@, self.cursor_pos - 1);
            }
        }
        if self.cursor_pos > 0 {
            self.cursor_pos -= 1;
        }
    }

    /// Moves the cursor one byte to the right, unless it is at or past the
    /// end.
    pub fn cursor_right(&mut self)
        ensures
            *final(self) == (Prompt {
                cursor_pos: if old(self).cursor_pos < byte_len(old(self).input@) {
                    (old(self).cursor_pos + 1) as usize
                } else {
                    old(self).cursor_pos
                },
                ..*old(self)
            }),
            is_ascii_chars(old(self).input@) && old(self).cursor_valid()
                ==> final(self).cursor_valid(),
    {
        proof {
            if is_ascii_chars(self.input@) {
                lemma_ascii_boundaries(self.input@, self.cursor_pos as int);
                lemma_ascii_boundaries(self.input@, self.cursor_pos + 1);
            }
        }
        if self.cursor_pos < byte_length(self.input.as_str()) {
            self.cursor_pos += 1;
        }
    }

    /// Types `ch` at the cursor and puts the cursor behind it.
    pub fn insert_char(&mut self, ch: char)
        requires
            old(self).cursor_valid(),
        ensures
            final(self).input@ == inserted_at(old(self).input@, old(self).cursor_pos as int, ch),
            final(self).cursor_pos == old(self).cursor_pos + byte_len(seq![ch]),
            final(self).cursor_valid(),
            final(self).same_frame(old(self)),
    {
        let ghost head = chars_before(self.input@, self.cursor_pos as int);
        let ghost tail = chars_from(self.input@, self.cursor_pos as int);
        proof {
            lemma_boundary_splits(self.input@, self.cursor_pos as int);
            lemma_encode_utf8_concat(head, seq![ch]);
            lemma_encode_utf8_concat(head.push(ch), tail);
            assert(head.push(ch) =~= head + seq![ch]);
            lemma_boundary_after_prefix(head.push(ch), tail);
        }
        string_insert(&mut self.input, self.cursor_pos, ch);
        // The text has grown by the bytes of `ch`, and the cursor was inside
        // it: the new offset is at most the new length.
        let end = byte_length(self.input.as_str());
        assert(self.cursor_pos + byte_len(seq![ch]) <= end);
        self.cursor_pos += utf8_width(ch);
    }

    /// Erases the character that starts one byte before the cursor and puts
    /// the cursor there. At the start of the input nothing happens.
    pub fn backspace(&mut self)
        requires
            old(self).cursor_pos > 0 ==> old(self).cursor_pos - 1 < byte_len(old(self).input@)
                && on_char_boundary(old(self).input@, old(self).cursor_pos - 1),
        ensures
            old(self).cursor_pos == 0 ==> *final(self) == *old(self),
            old(self).cursor_pos > 0 ==> {
                &&& final(self).input@ == removed_at(old(self).input@, old(self).cursor_pos - 1)
                &&& final(self).cursor_pos == old(self).cursor_pos - 1
                &&& final(self).cursor_valid()
            },
            final(self).same_frame(old(self)),
    {
        if self.cursor_pos > 0 {
            proof {
                let at = self.cursor_pos - 1;
                lemma_boundary_splits(self.input@, at);
                lemma_boundary_after_prefix(
                    chars_before(self.input@, at),
                    chars_from(self.input@, at).drop_first(),
                );
            }
            string_remove(&mut self.input, self.cursor_pos - 1);
            self.cursor_pos -= 1;
        }
    }

    /// Erases the character that starts at the cursor. At or past the end of
    /// the input nothing happens.
    pub fn delete(&mut self)
        requires
            old(self).cursor_pos < byte_len(old(self).input@) ==> old(self).cursor_valid(),
        ensures
            old(self).cursor_pos >= byte_len(old(self).input@) ==> *final(self) == *old(self),
            old(self).cursor_pos < byte_len(old(self).input@) ==> {
                &&& final(self).input@ == removed_at(old(self).input@, old(self).cursor_pos as int)
                &&& final(self).cursor_valid()
            },
            final(self).cursor_pos == old(self).cursor_pos,
            final(self).same_frame(old(self)),
    {
        if self.cursor_pos < byte_length(self.input.as_str()) {
            proof {
                let at = self.cursor_pos as int;
                lemma_boundary_splits(self.input@, at);
                lemma_boundary_after_prefix(
                    chars_before(self.input@, at),
                    chars_from(self.input@, at).drop_first(),
                );
            }
            string_remove(&mut self.input, self.cursor_pos);
        }
    }

    /// Puts the cursor before the first character.
    pub fn move_to_start(&mut self)
        ensures
            *final(self) == (Prompt { cursor_pos: 0, ..*old(self) }),
            final(self).cursor_valid(),
    {
        proof {
            lemma_boundary_after_prefix(Seq::empty(), self.input@);
            assert(Seq::<char>::empty() + self.input@ =~= self.input@);
        }
        self.cursor_pos = 0;
    }

    /// Puts the cursor behind the last character.
    pub fn move_to_end(&mut self)
        ensures
            *final(self) == (Prompt {
                cursor_pos: byte_len(old(self).input@) as usize,
                ..*old(self)
            }),
            final(self).cursor_pos == byte_len(old(self).input@),
            final(self).cursor_valid(),
    {
        proof {
            lemma_boundary_after_prefix(self.input@, Seq::empty());
            assert(self.input@ + Seq::<char>::empty() =~= self.input@);
        }
        self.cursor_pos = byte_length(self.input.as_str());
    }

    /// Picks the suggestion after the one picked, and the first one after the
    /// last or where none was picked. Without suggestions nothing happens.
    pub fn select_next_suggestion(&mut self)
        ensures
            *final(self) == (Prompt {
                selected_suggestion: if old(self).suggestions@.len() == 0 {
                    old(self).selected_suggestion
                } else {
                    match old(self).selected_suggestion {
                        Some(i) if i + 1 < old(self).suggestions@.len() => Some((i + 1) as usize),
                        _ => Some(0usize),
                    }
                },
                ..*old(self)
            }),
            old(self).suggestions@.len() > 0 ==> final(self).selection_valid(),
    {
        let n = self.suggestions.len();
        if n > 0 {
            self.selected_suggestion = Some(
                match self.selected_suggestion {
                    Some(idx) => if idx < n - 1 {
                        idx + 1
                    } else {
                        0
                    },
                    None => 0,
                },
            );
        }
    }

    /// Picks the suggestion before the one picked, the last one before the
    /// first, and the first one where none was picked. Without suggestions
    /// nothing happens.
    pub fn select_prev_suggestion(&mut self)
        ensures
            *final(self) == (Prompt {
                selected_suggestion: if old(self).suggestions@.len() == 0 {
                    old(self).selected_suggestion
                } else {
                    match old(self).selected_suggestion {
                        Some(i) if i == 0 => Some((old(self).suggestions@.len() - 1) as usize),
                        Some(i) => Some((i - 1) as usize),
                        None => Some(0usize),
                    }
                },
                ..*old(self)
            }),
            old(self).selection_valid() ==> final(self).selection_valid(),
    {
        let n = self.suggestions.len();
        if n > 0 {
            self.selected_suggestion = Some(
                match self.selected_suggestion {
                    Some(0) => n - 1,
                    Some(idx) => idx - 1,
                    None => 0,
                },
            );
        }
    }

    /// The value of the suggestion picked; nothing where none is picked or
    /// the selection points past the list.
    pub fn selected_value(&self) -> (value: Option<String>)
        ensures
            match value {
                Some(v) => self.spec_selected_value() == Some(v@),
                None => self.spec_selected_value() is None,
            },
    {
        match self.selected_suggestion {
            Some(idx) => {
                if idx < self.suggestions.len() {
                    Some(self.suggestions[idx].get_value().to_string())
                } else {
                    None
                }
            },
            None => None,
        }
    }

    /// What the prompt yields on confirmation: the value of the suggestion
    /// picked, or the input as typed where there is none.
    pub fn get_final_input(&self) -> (text: String)
        ensures
            text@ == match self.spec_selected_value() {
                Some(v) => v,
                None => self.input@,
            },
    {
        match self.selected_value() {
            Some(v) => v,
            None => self.input.clone(),
        }
    }
}

/// After a character of one byte was typed, [`Prompt::backspace`] is allowed
/// and takes it back: the input is what it was, and so is the cursor. (After
/// a wider character the cursor is more than a byte behind the start of the
/// character, and there is nothing that a backspace could erase.)
pub proof fn lemma_backspace_undoes_typing(before: Prompt, ch: char, after: Prompt)
    requires
        before.cursor_valid(),
        byte_len(seq![ch]) == 1,
        after.input@ == inserted_at(before.input@, before.cursor_pos as int, ch),
        after.cursor_pos == before.cursor_pos + 1,
    ensures
        after.cursor_pos - 1 < byte_len(after.input@),
        on_char_boundary(after.input@, after.cursor_pos - 1),
        removed_at(after.input@, after.cursor_pos - 1) == before.input@,
{
    lemma_remove_undoes_insert(before.input@, before.cursor_pos as int, ch);
}

} // verus!
