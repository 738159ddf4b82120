//! The presence agent's state and its update decisions.
//!
//! The agent keeps the activity fields between updates; `activity_plan`
//! decides which fields an update carries: a text field only when it is
//! non-empty, the timestamp pair only when both ends were set. Sending the
//! plan to the presence service is the caller's side.

use vstd::prelude::*;
use vstd::string::StringExecFns;

verus! {

/// The presence fields an agent holds between updates.
pub struct PresenceState {
    pub state: String,
    pub details: String,
    pub start_timestamp: Option<i64>,
    pub end_timestamp: Option<i64>,
    pub large_image: String,
    pub large_text: String,
    pub small_image: String,
    pub small_text: String,
}

/// What one activity update carries.
#[derive(Debug, Clone, PartialEq, Eq)]
pub struct ActivityPlan {
    pub state: Option<String>,
    pub details: Option<String>,
    pub timestamps: Option<(u64, u64)>,
    pub large_image: Option<String>,
    pub large_text: Option<String>,
    pub small_image: Option<String>,
    pub small_text: Option<String>,
}

impl PresenceState {
    /// A fresh agent: every text field empty, no timestamps.
    pub fn new() -> (r: Self)
        ensures
            r.state@ == Seq::<char>::empty(),
            r.details@ == Seq::<char>::empty(),
            r.start_timestamp is None,
            r.end_timestamp is None,
            r.large_image@ == Seq::<char>::empty(),
            r.large_text@ == Seq::<char>::empty(),
            r.small_image@ == Seq::<char>::empty(),
            r.small_text@ == Seq::<char>::empty(),
    {
        PresenceState {
            state: String::new(),
            details: String::new(),
            start_timestamp: None,
            end_timestamp: None,
            large_image: String::new(),
            large_text: String::new(),
            small_image: String::new(),
            small_text: String::new(),
        }
    }

    /// Stores the state line.
    pub fn set_activity_state(&mut self, state: &str)
        ensures
            final(self).state@ == state@,
            final(self).details == old(self).details,
            final(self).start_timestamp == old(self).start_timestamp,
            final(self).end_timestamp == old(self).end_timestamp,
            final(self).large_image == old(self).large_image,
            final(self).large_text == old(self).large_text,
            final(self).small_image == old(self).small_image,
            final(self).small_text == old(self).small_text,
    {
        self.state = String::from_str(state);
    }

    /// Stores the details line.
    pub fn set_activity_details(&mut self, details: &str)
        ensures
            final(self).details@ == details@,
            final(self).state == old(self).state,
            final(self).start_timestamp == old(self).start_timestamp,
            final(self).end_timestamp == old(self).end_timestamp,
            final(self).large_image == old(self).large_image,
            final(self).large_text == old(self).large_text,
            final(self).small_image == old(self).small_image,
            final(self).small_text == old(self).small_text,
    {
        self.details = String::from_str(details);
    }

    /// Stores both timestamps when both are non-zero, else clears both.
    pub fn set_activity_timestamps(&mut self, start: i64, end: i64)
        ensures
            (start != 0 && end != 0) ==> final(self).start_timestamp == Some(start) && final(self).end_timestamp == Some(end),
            !(start != 0 && end != 0) ==> final(self).start_timestamp is None && final(self).end_timestamp is None,
            final(self).state == old(self).state,
            final(self).details == old(self).details,
            final(self).large_image == old(self).large_image,
            final(self).large_text == old(self).large_text,
            final(self).small_image == old(self).small_image,
            final(self).small_text == old(self).small_text,
    {
        if start != 0 && end != 0 {
            self.start_timestamp = Some(start);
            self.end_timestamp = Some(end);
        } else {
            self.start_timestamp = None;
            self.end_timestamp = None;
        }
    }

    /// Stores the four asset fields.
    pub fn set_activity_assets(
        &mut self,
        large_image: &str,
        large_text: &str,
        small_image: &str,
        small_text: &str,
    )
        ensures
            final(self).large_image@ == large_image@,
            final(self).large_text@ == large_text@,
            final(self).small_image@ == small_image@,
            final(self).small_text@ == small_text@,
            final(self).state == old(self).state,
            final(self).details == old(self).details,
            final(self).start_timestamp == old(self).start_timestamp,
            final(self).end_timestamp == old(self).end_timestamp,
    {
        self.large_image = String::from_str(large_image);
        self.large_text = String::from_str(large_text);
        self.small_image = String::from_str(small_image);
        self.small_text = String::from_str(small_text);
    }

    /// Resets every field to the fresh state.
    pub fn clear_activity(&mut self)
        ensures
            final(self).state@ == Seq::<char>::empty(),
            final(self).details@ == Seq::<char>::empty(),
            final(self).start_timestamp is None,
            final(self).end_timestamp is None,
            final(self).large_image@ == Seq::<char>::empty(),
            final(self).large_text@ == Seq::<char>::empty(),
            final(self).small_image@ == Seq::<char>::empty(),
            final(self).small_text@ == Seq::<char>::empty(),
    {
        self.state = String::new();
        self.details = String::new();
        self.start_timestamp = None;
        self.end_timestamp = None;
        self.large_image = String::new();
        self.large_text = String::new();
        self.small_image = String::new();
        self.small_text = String::new();
    }

    /// Decides what an activity update carries: each text field exactly when
    /// it is non-empty, the timestamps exactly when both ends are set.
    pub fn activity_plan(&self) -> (r: ActivityPlan)
        ensures
            self.state@.len() > 0 ==> r.state is Some && r.state->Some_0@ == self.state@,
            self.state@.len() == 0 ==> r.state is None,
            self.details@.len() > 0 ==> r.details is Some && r.details->Some_0@ == self.details@,
            self.details@.len() == 0 ==> r.details is None,
            (self.start_timestamp is Some && self.end_timestamp is Some) ==> r.timestamps == Some(
                (self.start_timestamp->Some_0 as u64, self.end_timestamp->Some_0 as u64),
            ),
            (self.start_timestamp is None || self.end_timestamp is None) ==> r.timestamps is None,
            self.large_image@.len() > 0 ==> r.large_image is Some && r.large_image->Some_0@
                == self.large_image@,
            self.large_image@.len() == 0 ==> r.large_image is None,
            self.large_text@.len() > 0 ==> r.large_text is Some && r.large_text->Some_0@
                == self.large_text@,
            self.large_text@.len() == 0 ==> r.large_text is None,
            self.small_image@.len() > 0 ==> r.small_image is Some && r.small_image->Some_0@
                == self.small_image@,
            self.small_image@.len() == 0 ==> r.small_image is None,
            self.small_text@.len() > 0 ==> r.small_text is Some && r.small_text->Some_0@
                == self.small_text@,
            self.small_text@.len() == 0 ==> r.small_text is None,
    {
        let timestamps: Option<(u64, u64)> = match (self.start_timestamp, self.end_timestamp) {
            (Some(st), Some(en)) => Some((st as u64, en as u64)),
            _ => None,
        };
        ActivityPlan {
            state: if !self.state.as_str().is_empty() {
                Some(self.state.clone())
            } else {
                None
            },
            details: if !self.details.as_str().is_empty() {
                Some(self.details.clone())
            } else {
                None
            },
            timestamps,
            large_image: if !self.large_image.as_str().is_empty() {
                Some(self.large_image.clone())
            } else {
                None
            },
            large_text: if !self.large_text.as_str().is_empty() {
                Some(self.large_text.clone())
            } else {
                None
            },
            small_image: if !self.small_image.as_str().is_empty() {
                Some(self.small_image.clone())
            } else {
                None
            },
            small_text: if !self.small_text.as_str().is_empty() {
                Some(self.small_text.clone())
            } else {
                None
            },
        }
    }
}

} // verus!
