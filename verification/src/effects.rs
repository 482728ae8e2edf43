//! What the program has to do outside after a key, and how it goes on when that is done.

use vstd::prelude::*;
use vstd::string::*;

use crate::data::{set_description, settled, DataModel};
use crate::date::Date;
use crate::scratchpad::{strip_vim_help_block, without_help};
use crate::seqs::{first_where, first_where_is, first_where_is_none, is_first_where};
use crate::sorting::views;
use crate::soundness::replies_keep_the_state_sound;
use crate::state::{App, AppModel};
use crate::task::{ListItemModel, TaskKey};

verus! {

/// What follows once the data are saved.
#[derive(Clone, Copy, Debug, PartialEq, Eq, Structural)]
pub enum AfterSave {
    /// A failure is reported.
    Report,
    /// The task that was created in the open list is opened.
    OpenListTask(TaskKey),
    /// The task that was created from the main page is opened.
    OpenMainTask(TaskKey),
    /// The list that was created is opened.
    OpenList(u64),
}

/// What a text is that is handed to the text editor.
#[derive(Clone, Copy, Debug, PartialEq, Eq, Structural)]
pub enum TextPurpose {
    Notes,
    Description(TaskKey),
}

/// What has to be done outside.
#[derive(Debug)]
pub enum Effect {
    /// Nothing.
    Idle,
    /// The data are saved.
    Save(AfterSave),
    /// A text is handed to the text editor.
    EditText(TextPurpose, String),
    /// The notes are saved.
    WriteNotes(String),
}

#[verifier::ext_equal]
pub enum EffectModel {
    Idle,
    Save(AfterSave),
    EditText(TextPurpose, Seq<char>),
    WriteNotes(Seq<char>),
}

impl View for Effect {
    type V = EffectModel;

    open spec fn view(&self) -> EffectModel {
        match self {
            Effect::Idle => EffectModel::Idle,
            Effect::Save(after) => EffectModel::Save(*after),
            Effect::EditText(purpose, text) => EffectModel::EditText(*purpose, text@),
            Effect::WriteNotes(text) => EffectModel::WriteNotes(text@),
        }
    }
}

/// A state, and what has to be done outside.
pub struct Step {
    pub app: AppModel,
    pub effect: EffectModel,
}

pub open spec fn idle(app: AppModel) -> Step {
    Step { app, effect: EffectModel::Idle }
}

/// After an edit of the data that has a result, they are saved.
pub open spec fn edited(app: AppModel, after: Option<DataModel>) -> Step {
    match after {
        Some(data) => Step {
            app: AppModel { data, ..app },
            effect: EffectModel::Save(AfterSave::Report),
        },
        None => idle(app),
    }
}

pub open spec fn has_item_id(list_id: u64) -> spec_fn(ListItemModel) -> bool {
    |item: ListItemModel| item.list_id == list_id
}

/// With a list open, and its row selected where it is shown.
pub open spec fn list_opened(app: AppModel, list_id: u64) -> AppModel {
    AppModel {
        expanded_list_id: Some(list_id),
        selected_list_task_idx: 0,
        selected_list_idx: match first_where(app.page_lists(), has_item_id(list_id)) {
            Some(i) => i as usize,
            None => app.selected_list_idx,
        },
        ..app
    }
}

/// The state once the data are saved, or could not be.
pub open spec fn saved(app: AppModel, after: AfterSave, error: Option<Seq<char>>) -> AppModel {
    match (after, error) {
        (AfterSave::Report, None) => app,
        (AfterSave::Report, Some(e)) => app.told("save error: "@ + e),
        (AfterSave::OpenListTask(key), None) => AppModel {
            expanded_task_key: Some(key),
            selected_list_task_idx: 0,
            ..app.unselected()
        },
        (AfterSave::OpenMainTask(key), None) => AppModel {
            expanded_task_key: Some(key),
            ..app.unselected().main_in_range()
        },
        (AfterSave::OpenList(list_id), None) => list_opened(app, list_id),
        (AfterSave::OpenList(_), Some(e)) => app.told("failed to create task list: "@ + e),
        (_, Some(e)) => app.told("failed to create task: "@ + e),
    }
}

/// The state once the text editor is closed, or could not be opened, with what it leaves behind.
pub open spec fn text_edited(
    app: AppModel,
    purpose: TextPurpose,
    content: Result<Seq<char>, Seq<char>>,
    today: int,
) -> Step {
    match content {
        Ok(text) => match purpose {
            TextPurpose::Notes => Step { app, effect: EffectModel::WriteNotes(without_help(text)) },
            TextPurpose::Description(key) => edited(
                app,
                settled(app.data.edited_task(key, set_description(without_help(text))), today),
            ),
        },
        Err(e) => idle(app.told("failed to open vim: "@ + e)),
    }
}

/// The state once the notes are saved, or could not be.
pub open spec fn notes_written(
    app: AppModel,
    text: Seq<char>,
    error: Option<Seq<char>>,
) -> AppModel {
    match error {
        Some(e) => app.told("failed to save notes: "@ + e),
        None => AppModel { notes_text: text, ..app },
    }
}

pub open spec fn error_of(result: Result<(), String>) -> Option<Seq<char>> {
    match result {
        Ok(_) => None,
        Err(e) => Some(e@),
    }
}

pub open spec fn content_of(result: Result<String, String>) -> Result<Seq<char>, Seq<char>> {
    match result {
        Ok(text) => Ok(text@),
        Err(e) => Err(e@),
    }
}

impl TextPurpose {
    pub open spec fn stem(self) -> Seq<char> {
        match self {
            TextPurpose::Notes => "notes"@,
            TextPurpose::Description(_) => "description"@,
        }
    }

    /// A part of the name of the file that is handed to the text editor.
    pub fn file_stem(&self) -> (res: &'static str)
        ensures
            res@ == self.stem(),
    {
        match self {
            TextPurpose::Notes => "notes",
            TextPurpose::Description(_) => "description",
        }
    }
}

impl App {
    fn open_list(&mut self, list_id: u64)
        ensures
            final(self)@ == list_opened(old(self)@, list_id),
    {
        let items = self.filtered_task_list_items();
        let ghost all = views(items@);
        self.expanded_list_id = Some(list_id);
        self.selected_list_task_idx = 0;
        let mut i: usize = 0;
        while i < items.len()
            invariant
                i <= items@.len(),
                all == views(items@),
                all == old(self)@.page_lists(),
                self@ == (AppModel {
                    expanded_list_id: Some(list_id),
                    selected_list_task_idx: 0,
                    ..old(self)@
                }),
                forall|k: int| 0 <= k < i ==> !has_item_id(list_id)(#[trigger] all[k]),
            decreases items.len() - i,
        {
            assert(all[i as int] == items@[i as int]@);
            if items[i].list_id == list_id {
                proof {
                    assert(is_first_where(all, has_item_id(list_id), i as int));
                    first_where_is(all, has_item_id(list_id), i as int);
                }
                self.selected_list_idx = i;
                return ;
            }
            i += 1;
        }
        proof {
            first_where_is_none(all, has_item_id(list_id));
        }
    }

    /// Goes on once the data are saved, or could not be.
    pub fn saved(&mut self, after: AfterSave, result: Result<(), String>)
        ensures
            final(self)@ == saved(old(self)@, after, error_of(result)),
            old(self)@.wf() ==> final(self)@.wf(),
    {
        proof {
            if self@.wf() {
                replies_keep_the_state_sound(
                    self@,
                    after,
                    TextPurpose::Notes,
                    Ok(Seq::empty()),
                    Seq::empty(),
                    error_of(result),
                    0,
                );
            }
        }
        match result {
            Ok(_) => match after {
                AfterSave::Report => {},
                AfterSave::OpenListTask(key) => {
                    self.clear_multi_selection();
                    self.expanded_task_key = Some(key);
                    self.selected_list_task_idx = 0;
                },
                AfterSave::OpenMainTask(key) => {
                    self.clear_multi_selection();
                    self.normalize_main_selection();
                    self.expanded_task_key = Some(key);
                },
                AfterSave::OpenList(list_id) => {
                    self.open_list(list_id);
                },
            },
            Err(error) => {
                let lead = match after {
                    AfterSave::Report => "save error: ",
                    AfterSave::OpenListTask(_) => "failed to create task: ",
                    AfterSave::OpenMainTask(_) => "failed to create task: ",
                    AfterSave::OpenList(_) => "failed to create task list: ",
                };
                self.push_popup(lead.to_string().concat(error.as_str()));
            },
        }
    }

    /// Goes on once the text editor is closed, or could not be opened.
    pub fn text_edited(
        &mut self,
        purpose: TextPurpose,
        content: Result<String, String>,
        today: Date,
    ) -> (effect: Effect)
        ensures
            (Step { app: final(self)@, effect: effect@ }) == text_edited(
                old(self)@,
                purpose,
                content_of(content),
                today@,
            ),
            old(self)@.wf() ==> final(self)@.wf(),
    {
        proof {
            if self@.wf() {
                replies_keep_the_state_sound(
                    self@,
                    AfterSave::Report,
                    purpose,
                    content_of(content),
                    Seq::empty(),
                    None,
                    today@,
                );
            }
        }
        match content {
            Ok(text) => {
                let kept = strip_vim_help_block(text.as_str());
                match purpose {
                    TextPurpose::Notes => Effect::WriteNotes(kept),
                    TextPurpose::Description(key) => {
                        if self.data.update_task_description(key, kept, today) {
                            Effect::Save(AfterSave::Report)
                        } else {
                            Effect::Idle
                        }
                    },
                }
            },
            Err(error) => {
                self.push_popup("failed to open vim: ".to_string().concat(error.as_str()));
                Effect::Idle
            },
        }
    }

    /// Goes on once the notes are saved, or could not be.
    pub fn notes_written(&mut self, text: String, result: Result<(), String>)
        ensures
            final(self)@ == notes_written(old(self)@, text@, error_of(result)),
            old(self)@.wf() ==> final(self)@.wf(),
    {
        proof {
            if self@.wf() {
                replies_keep_the_state_sound(
                    self@,
                    AfterSave::Report,
                    TextPurpose::Notes,
                    Ok(Seq::empty()),
                    text@,
                    error_of(result),
                    0,
                );
            }
        }
        match result {
            Ok(_) => {
                self.notes_text = text;
            },
            Err(error) => {
                self.push_popup("failed to save notes: ".to_string().concat(error.as_str()));
            },
        }
    }
}

} // verus!
