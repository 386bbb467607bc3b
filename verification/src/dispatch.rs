//! The dispatch loop as a state machine over the batch: Loaded, then
//! Confirming (first-row placeholder validation), then Sending row by row,
//! ending Completed or Aborted. The operator's loop performs the outside
//! work (prompting, reading asset files, delivering, sleeping) that each
//! step asks for and reports its outcome back; every decision is taken
//! here.
use vstd::prelude::*;

use crate::config::DispatchConfig;
use crate::error::DispatchError;
use crate::message::compose_err_matches;
use crate::message::compose_ok;
use crate::message::create_message;
use crate::message::message_matches;
use crate::message::Message;
use crate::message::RelatedContent;
use crate::substitution::find_unmatched_placeholders;
use crate::substitution::unmatched_spec;
use crate::substitution::Substitutions;

verus! {

/// The fixed pause after each delivery, a deliberate rate limit against
/// provider throttling.
pub const SEND_DELAY_MS: u64 = 1000;

/// Where the batch stands.
pub enum Phase {
    /// Configuration, body templates, and rows are loaded.
    Loaded,
    /// The first row was scanned; the operator's answer on any unmatched
    /// placeholder is pending.
    Confirming,
    /// Rows are composed and handed out one by one, in input order.
    Sending,
    /// Every row was processed without failure.
    Completed,
    /// A failure stopped the batch; no further row is processed.
    Aborted,
}

/// One step of the sending phase: the message composed for one row, and
/// what the operator's loop is to do with it. `deliver` is false exactly in
/// dry run; the message is then only previewed and no delay follows it.
#[derive(Debug)]
pub struct RowTask {
    pub message: Message,
    /// Position of the row, starting at 0.
    pub index: usize,
    /// Number of rows in the batch.
    pub total: usize,
    /// Print the full rendered message (dry run or verbose).
    pub preview: bool,
    /// Hand the message to the mail transport (never in dry run).
    pub deliver: bool,
    /// Pause this long after a delivery, 0 when none happens.
    pub delay_ms: u64,
}

/// The keys the first-row validation scan reports: the unmatched
/// placeholders of the subject template, then of the HTML body template,
/// then of the text body template.
pub open spec fn validation_keys_spec(
    config: &DispatchConfig,
    body_html: &Option<String>,
    body_text: &Option<String>,
    row: Map<Seq<char>, Seq<char>>,
) -> Seq<Seq<char>> {
    unmatched_spec(config.subject@, row) + (match body_html {
        Option::Some(h) => unmatched_spec(h@, row),
        Option::None => Seq::empty(),
    }) + (match body_text {
        Option::Some(t) => unmatched_spec(t@, row),
        Option::None => Seq::empty(),
    })
}

/// The batch state machine.
pub struct Dispatcher {
    pub config: DispatchConfig,
    pub body_html: Option<String>,
    pub body_text: Option<String>,
    pub rows: Vec<Substitutions>,
    pub dry_run: bool,
    pub verbose: bool,
    pub phase: Phase,
    /// Index of the next row to compose.
    pub next_row: usize,
}

/// Whether two dispatcher states carry the same run: same configuration,
/// templates, rows, and modes.
pub open spec fn same_setup(a: &Dispatcher, b: &Dispatcher) -> bool {
    &&& a.config == b.config
    &&& a.body_html == b.body_html
    &&& a.body_text == b.body_text
    &&& a.rows == b.rows
    &&& a.dry_run == b.dry_run
    &&& a.verbose == b.verbose
}

impl Dispatcher {
    /// A freshly loaded batch.
    pub fn new(
        config: DispatchConfig,
        body_html: Option<String>,
        body_text: Option<String>,
        rows: Vec<Substitutions>,
        dry_run: bool,
        verbose: bool,
    ) -> (d: Dispatcher)
        ensures
            d.config == config,
            d.body_html == body_html,
            d.body_text == body_text,
            d.rows == rows,
            d.dry_run == dry_run,
            d.verbose == verbose,
            d.phase is Loaded,
            d.next_row == 0,
    {
        Dispatcher {
            config,
            body_html,
            body_text,
            rows,
            dry_run,
            verbose,
            phase: Phase::Loaded,
            next_row: 0,
        }
    }

    /// Validates the batch. A batch with no rows fails at once, before any
    /// mail connection is opened, and aborts the dispatch. Otherwise the
    /// subject and body templates are scanned against the first row alone,
    /// and every unmatched placeholder key is returned, in scan order, for
    /// the operator to rule on.
    pub fn start(&mut self) -> (r: Result<Vec<String>, DispatchError>)
        requires
            old(self).phase is Loaded,
        ensures
            same_setup(old(self), final(self)),
            final(self).next_row == old(self).next_row,
            old(self).rows@.len() == 0 ==> {
                &&& r is Err
                &&& (r->Err_0 matches DispatchError::EmptyBatch { data_path } && data_path@
                    == old(self).config.data_path@)
                &&& final(self).phase is Aborted
            },
            old(self).rows@.len() > 0 ==> {
                &&& r is Ok
                &&& r->Ok_0.deep_view() == validation_keys_spec(
                    &old(self).config,
                    &old(self).body_html,
                    &old(self).body_text,
                    old(self).rows@[0]@,
                )
                &&& final(self).phase is Confirming
            },
    {
        if self.rows.len() == 0 {
            self.phase = Phase::Aborted;
            return Err(DispatchError::EmptyBatch { data_path: self.config.data_path.clone() });
        }
        let row = &self.rows[0];
        let mut keys = find_unmatched_placeholders(self.config.subject.as_str(), row);
        match &self.body_html {
            Some(h) => {
                let mut more = find_unmatched_placeholders(h.as_str(), row);
                keys.append(&mut more);
            },
            None => {},
        }
        match &self.body_text {
            Some(t) => {
                let mut more = find_unmatched_placeholders(t.as_str(), row);
                keys.append(&mut more);
            },
            None => {},
        }
        proof {
            assert(keys.deep_view() =~= validation_keys_spec(
                &self.config,
                &self.body_html,
                &self.body_text,
                self.rows@[0]@,
            ));
        }
        self.phase = Phase::Confirming;
        Ok(keys)
    }

    /// Records the operator's ruling on the unmatched placeholders. A
    /// negative answer aborts the whole dispatch before any message is
    /// composed or sent; acceptance enters the sending phase.
    pub fn confirm(&mut self, accepted: bool) -> (r: Result<(), DispatchError>)
        requires
            old(self).phase is Confirming,
        ensures
            same_setup(old(self), final(self)),
            final(self).next_row == old(self).next_row,
            accepted ==> r is Ok && final(self).phase is Sending,
            !accepted ==> r is Err && r->Err_0 is Declined && final(self).phase is Aborted,
    {
        if accepted {
            self.phase = Phase::Sending;
            Ok(())
        } else {
            self.phase = Phase::Aborted;
            Err(DispatchError::Declined)
        }
    }

    /// Composes the message for the current row, with the inline assets
    /// loaded for it, and says what to do with it: preview it when dry run
    /// or verbose is set, deliver it and pause after exactly when not a dry
    /// run. A composition failure aborts the whole dispatch.
    pub fn compose_next(&mut self, related: Vec<RelatedContent>) -> (r: Result<
        RowTask,
        DispatchError,
    >)
        requires
            old(self).phase is Sending,
            old(self).next_row < old(self).rows@.len(),
        ensures
            same_setup(old(self), final(self)),
            final(self).next_row == old(self).next_row,
            r is Ok <==> compose_ok(
                &old(self).config,
                &old(self).body_html,
                &old(self).body_text,
                old(self).rows@[old(self).next_row as int]@,
            ),
            r is Ok ==> {
                &&& final(self).phase is Sending
                &&& message_matches(
                    &r->Ok_0.message,
                    &old(self).config,
                    &old(self).body_html,
                    &old(self).body_text,
                    related@,
                    old(self).rows@[old(self).next_row as int]@,
                )
                &&& r->Ok_0.index == old(self).next_row
                &&& r->Ok_0.total == old(self).rows@.len()
                &&& r->Ok_0.preview == (old(self).dry_run || old(self).verbose)
                &&& r->Ok_0.deliver == !old(self).dry_run
                &&& r->Ok_0.delay_ms == if old(self).dry_run {
                    0u64
                } else {
                    SEND_DELAY_MS
                }
            },
            r is Err ==> {
                &&& final(self).phase is Aborted
                &&& compose_err_matches(
                    &old(self).config,
                    &old(self).body_html,
                    &old(self).body_text,
                    old(self).rows@[old(self).next_row as int]@,
                    &r->Err_0,
                )
            },
    {
        let row = &self.rows[self.next_row];
        match create_message(&self.config, &self.body_html, &self.body_text, related, row) {
            Ok(message) => Ok(
                RowTask {
                    message,
                    index: self.next_row,
                    total: self.rows.len(),
                    preview: self.dry_run || self.verbose,
                    deliver: !self.dry_run,
                    delay_ms: if self.dry_run {
                        0
                    } else {
                        SEND_DELAY_MS
                    },
                },
            ),
            Err(e) => {
                self.phase = Phase::Aborted;
                Err(e)
            },
        }
    }

    /// Records that the current row was previewed and, unless dry run,
    /// delivered; moves to the next row, completing the batch after the
    /// last one.
    pub fn advance(&mut self)
        requires
            old(self).phase is Sending,
            old(self).next_row < old(self).rows@.len(),
        ensures
            same_setup(old(self), final(self)),
            final(self).next_row == old(self).next_row + 1,
            final(self).next_row == old(self).rows@.len() ==> final(self).phase is Completed,
            final(self).next_row < old(self).rows@.len() ==> final(self).phase is Sending,
    {
        let n = self.rows.len();
        self.next_row = self.next_row + 1;
        if self.next_row == n {
            self.phase = Phase::Completed;
        }
    }

    /// Records that the transport failed on the current row: the batch is
    /// aborted and the failure names the message's recipients and the
    /// underlying cause.
    pub fn fail_send(&mut self, recipients: String, detail: String) -> (e: DispatchError)
        requires
            old(self).phase is Sending,
        ensures
            same_setup(old(self), final(self)),
            final(self).next_row == old(self).next_row,
            final(self).phase is Aborted,
            e matches DispatchError::Send { recipients: r2, detail: d2 } && r2@ == recipients@
                && d2@ == detail@,
    {
        self.phase = Phase::Aborted;
        DispatchError::Send { recipients, detail }
    }

    /// The terminal summary line of a completed batch.
    pub fn summary_line(&self) -> (r: String)
        requires
            self.phase is Completed,
        ensures
            self.dry_run ==> r@ == "Dry run successful!"@,
            !self.dry_run ==> r@ == "Emails sent successfully!"@,
    {
        if self.dry_run {
            String::from_str("Dry run successful!")
        } else {
            String::from_str("Emails sent successfully!")
        }
    }
}

} // verus!
