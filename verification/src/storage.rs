//! Where accepted emails go: which storage modes run, and transcript file names.
use vstd::prelude::*;
use crate::address::{sanitize_file_part, sanitized};
use crate::session::{texts, ReceivedEmail};
use crate::time::{rfc3339_of, rfc3339_text};

verus! {

/// The configured storage modes of the receiver.
#[derive(Clone, Copy, Debug, PartialEq, Eq, Structural)]
pub struct StorageSettings {
    /// Transcript saving is requested (on unless turned off).
    pub save_transcript: bool,
    /// Transcript saving is explicitly turned off.
    pub no_save_transcript: bool,
    /// A webhook is configured.
    pub webhook: bool,
    /// A Firebase database URL is configured.
    pub firebase: bool,
    /// A MongoDB connection is configured.
    pub mongodb: bool,
}

/// One thing done with an accepted email.
#[derive(Clone, Copy, Debug, PartialEq, Eq, Structural)]
pub enum DeliveryStep {
    SaveTranscript,
    CallWebhook,
    SaveFirebase,
    SaveMongoDb,
}

/// One store from which old data is removed.
#[derive(Clone, Copy, Debug, PartialEq, Eq, Structural)]
pub enum CleanupStep {
    Transcripts,
    Firebase,
    MongoDb,
}

/// Transcripts are saved when requested and not turned off.
pub open spec fn transcripts_enabled(s: StorageSettings) -> bool {
    s.save_transcript && !s.no_save_transcript
}

/// `x` as a one-element sequence when `keep` holds, else nothing.
pub open spec fn when<T>(keep: bool, x: T) -> Seq<T> {
    if keep {
        seq![x]
    } else {
        Seq::empty()
    }
}

/// The steps run for each accepted email, in order.
pub open spec fn delivery_steps(s: StorageSettings) -> Seq<DeliveryStep> {
    when(transcripts_enabled(s), DeliveryStep::SaveTranscript) + when(
        s.webhook,
        DeliveryStep::CallWebhook,
    ) + when(s.firebase, DeliveryStep::SaveFirebase) + when(s.mongodb, DeliveryStep::SaveMongoDb)
}

/// The stores cleaned on each cleanup run, in order; webhook deliveries are not stored
/// here and so have nothing to clean.
pub open spec fn cleanup_steps(s: StorageSettings) -> Seq<CleanupStep> {
    when(transcripts_enabled(s), CleanupStep::Transcripts) + when(s.firebase, CleanupStep::Firebase)
        + when(s.mongodb, CleanupStep::MongoDb)
}

/// The steps run for each accepted email.
pub fn delivery_plan(s: StorageSettings) -> (plan: Vec<DeliveryStep>)
    ensures
        plan@ == delivery_steps(s),
{
    let mut plan: Vec<DeliveryStep> = Vec::new();
    if s.save_transcript && !s.no_save_transcript {
        plan.push(DeliveryStep::SaveTranscript);
    }
    if s.webhook {
        plan.push(DeliveryStep::CallWebhook);
    }
    if s.firebase {
        plan.push(DeliveryStep::SaveFirebase);
    }
    if s.mongodb {
        plan.push(DeliveryStep::SaveMongoDb);
    }
    assert(plan@ =~= delivery_steps(s));
    plan
}

/// The stores cleaned on each cleanup run.
pub fn cleanup_plan(s: StorageSettings) -> (plan: Vec<CleanupStep>)
    ensures
        plan@ == cleanup_steps(s),
{
    let mut plan: Vec<CleanupStep> = Vec::new();
    if s.save_transcript && !s.no_save_transcript {
        plan.push(CleanupStep::Transcripts);
    }
    if s.firebase {
        plan.push(CleanupStep::Firebase);
    }
    if s.mongodb {
        plan.push(CleanupStep::MongoDb);
    }
    assert(plan@ =~= cleanup_steps(s));
    plan
}

/// The recipient named in a transcript file: the first one, or `unknown-recipient`.
pub open spec fn named_recipient(recipients: Seq<Seq<char>>) -> Seq<char> {
    if recipients.len() > 0 {
        recipients[0]
    } else {
        "unknown-recipient"@
    }
}

/// The transcript file name `sender-recipient-time.txt`, each part sanitized.
pub open spec fn transcript_file_name_of(
    from: Seq<char>,
    recipients: Seq<Seq<char>>,
    time_text: Seq<char>,
) -> Seq<char> {
    sanitized(from) + "-"@ + sanitized(named_recipient(recipients)) + "-"@ + sanitized(time_text)
        + ".txt"@
}

/// The transcript file name for an email from `from` to `recipients` received at the
/// instant whose RFC 3339 text is `time_text`.
pub fn transcript_file_name_for(from: &str, recipients: &Vec<String>, time_text: &str) -> (name:
    String)
    ensures
        name@ == transcript_file_name_of(from@, texts(recipients@), time_text@),
{
    let mut name = sanitize_file_part(from);
    name.append("-");
    let recipient = if recipients.len() > 0 {
        sanitize_file_part(recipients[0].as_str())
    } else {
        sanitize_file_part("unknown-recipient")
    };
    name.append(recipient.as_str());
    name.append("-");
    let time_part = sanitize_file_part(time_text);
    name.append(time_part.as_str());
    name.append(".txt");
    name
}

impl ReceivedEmail {
    /// The file name under which this email's transcript is saved.
    pub fn transcript_file_name(&self) -> (name: String)
        requires
            self.received_at.is_valid(),
        ensures
            name@ == transcript_file_name_of(
                self.from@,
                texts(self.recipients@),
                rfc3339_of(self.received_at.secs, self.received_at.nanos),
            ),
    {
        let time_text = rfc3339_text(self.received_at);
        transcript_file_name_for(self.from.as_str(), &self.recipients, time_text.as_str())
    }
}

/// Law: a transcript file name holds only ASCII letters, digits, `-` and `.`, so no
/// spaces or path separators, and ends in `.txt`.
pub proof fn law_transcript_file_name_is_safe(
    from: Seq<char>,
    recipients: Seq<Seq<char>>,
    time_text: Seq<char>,
)
    ensures
        ({
            let name = transcript_file_name_of(from, recipients, time_text);
            &&& forall|i: int|
                0 <= i < name.len() ==> crate::text::is_ascii_alnum(#[trigger] name[i])
                    || name[i] == '-' || name[i] == '.'
            &&& name.len() >= 4
            &&& name.skip(name.len() - 4) == ".txt"@
        }),
{
    reveal_strlit("-");
    reveal_strlit(".txt");
    let a = sanitized(from);
    let b = sanitized(named_recipient(recipients));
    let c = sanitized(time_text);
    crate::address::law_sanitized_shape(from);
    crate::address::law_sanitized_shape(named_recipient(recipients));
    crate::address::law_sanitized_shape(time_text);
    let name = transcript_file_name_of(from, recipients, time_text);
    assert(name =~= a + seq!['-'] + b + seq!['-'] + c + seq!['.', 't', 'x', 't']);
    assert forall|i: int| 0 <= i < name.len() implies crate::text::is_ascii_alnum(#[trigger] name[i])
        || name[i] == '-' || name[i] == '.' by {
        if i < a.len() {
            assert(name[i] == a[i]);
        } else if i < a.len() + 1 {
        } else if i < a.len() + 1 + b.len() {
            assert(name[i] == b[i - a.len() - 1]);
        } else if i < a.len() + 2 + b.len() {
        } else if i < a.len() + 2 + b.len() + c.len() {
            assert(name[i] == c[i - a.len() - 2 - b.len()]);
        }
    }
    assert(name.skip(name.len() - 4) =~= ".txt"@);
}

/// Law: old data is cleaned from exactly the stores that accepted emails are saved to;
/// the webhook keeps nothing and is never cleaned.
pub proof fn law_cleanup_matches_storage(s: StorageSettings)
    ensures
        delivery_steps(s).contains(DeliveryStep::SaveTranscript) <==> cleanup_steps(s).contains(
            CleanupStep::Transcripts,
        ),
        delivery_steps(s).contains(DeliveryStep::SaveFirebase) <==> cleanup_steps(s).contains(
            CleanupStep::Firebase,
        ),
        delivery_steps(s).contains(DeliveryStep::SaveMongoDb) <==> cleanup_steps(s).contains(
            CleanupStep::MongoDb,
        ),
{
    let d = delivery_steps(s);
    let c = cleanup_steps(s);
    if d.contains(DeliveryStep::SaveTranscript) {
        let i = choose|i: int| 0 <= i < d.len() && d[i] == DeliveryStep::SaveTranscript;
        assert(transcripts_enabled(s));
        assert(c[0] == CleanupStep::Transcripts);
    }
    if c.contains(CleanupStep::Transcripts) {
        let i = choose|i: int| 0 <= i < c.len() && c[i] == CleanupStep::Transcripts;
        assert(transcripts_enabled(s));
        assert(d[0] == DeliveryStep::SaveTranscript);
    }
    if d.contains(DeliveryStep::SaveFirebase) {
        let i = choose|i: int| 0 <= i < d.len() && d[i] == DeliveryStep::SaveFirebase;
        assert(s.firebase);
        assert(c[when(transcripts_enabled(s), CleanupStep::Transcripts).len() as int] == CleanupStep::Firebase);
    }
    if c.contains(CleanupStep::Firebase) {
        let i = choose|i: int| 0 <= i < c.len() && c[i] == CleanupStep::Firebase;
        assert(s.firebase);
        let k = when(transcripts_enabled(s), DeliveryStep::SaveTranscript).len() + when(s.webhook, DeliveryStep::CallWebhook).len();
        assert(d[k as int] == DeliveryStep::SaveFirebase);
    }
    if d.contains(DeliveryStep::SaveMongoDb) {
        let i = choose|i: int| 0 <= i < d.len() && d[i] == DeliveryStep::SaveMongoDb;
        assert(s.mongodb);
        assert(c[c.len() - 1] == CleanupStep::MongoDb);
    }
    if c.contains(CleanupStep::MongoDb) {
        let i = choose|i: int| 0 <= i < c.len() && c[i] == CleanupStep::MongoDb;
        assert(s.mongodb);
        assert(d[d.len() - 1] == DeliveryStep::SaveMongoDb);
    }
}


proof fn lemma_concat_contains<T>(a: Seq<T>, b: Seq<T>, x: T)
    ensures
        (a + b).contains(x) <==> a.contains(x) || b.contains(x),
{
    if a.contains(x) {
        let i = choose|i: int| 0 <= i < a.len() && a[i] == x;
        assert((a + b)[i] == a[i]);
    }
    if b.contains(x) {
        let j = choose|j: int| 0 <= j < b.len() && b[j] == x;
        assert((a + b)[a.len() + j] == b[j]);
    }
    if (a + b).contains(x) {
        let k = choose|k: int| 0 <= k < (a + b).len() && (a + b)[k] == x;
        if k < a.len() {
            assert(a[k] == (a + b)[k]);
        } else {
            assert(b[k - a.len()] == (a + b)[k]);
        }
    }
}

proof fn lemma_when_contains<T>(keep: bool, x: T, y: T)
    ensures
        (when(keep, x).contains(y)) <==> keep && x == y,
        (when(keep, x).len()) == if keep { 1int } else { 0int },
{
    if keep {
        assert(when(keep, x)[0] == x);
    }
}

/// The number of `true` values among four flags.
pub open spec fn count_on(a: bool, b: bool, c: bool, d: bool) -> int {
    (if a { 1int } else { 0int }) + (if b { 1int } else { 0int }) + (if c { 1int } else { 0int })
        + (if d { 1int } else { 0int })
}

/// Law: each storage mode runs for an accepted email exactly when it is configured, whatever
/// the other settings: the transcript is saved when requested and not turned off, the webhook
/// is called when one is configured, Firebase and MongoDB are written when configured. Each
/// runs once: the plan has one step per configured mode.
pub proof fn law_delivery_runs_each_configured_mode(s: StorageSettings)
    ensures
        delivery_steps(s).contains(DeliveryStep::SaveTranscript) <==> (s.save_transcript
            && !s.no_save_transcript),
        delivery_steps(s).contains(DeliveryStep::CallWebhook) <==> s.webhook,
        delivery_steps(s).contains(DeliveryStep::SaveFirebase) <==> s.firebase,
        delivery_steps(s).contains(DeliveryStep::SaveMongoDb) <==> s.mongodb,
        delivery_steps(s).len() == count_on(
            s.save_transcript && !s.no_save_transcript,
            s.webhook,
            s.firebase,
            s.mongodb,
        ),
{
    let t = when(transcripts_enabled(s), DeliveryStep::SaveTranscript);
    let w = when(s.webhook, DeliveryStep::CallWebhook);
    let f = when(s.firebase, DeliveryStep::SaveFirebase);
    let m = when(s.mongodb, DeliveryStep::SaveMongoDb);
    let steps = seq![
        DeliveryStep::SaveTranscript,
        DeliveryStep::CallWebhook,
        DeliveryStep::SaveFirebase,
        DeliveryStep::SaveMongoDb,
    ];
    assert forall|i: int| 0 <= i < 4 implies (#[trigger] delivery_steps(s).contains(steps[i]))
        == (t.contains(steps[i]) || w.contains(steps[i]) || f.contains(steps[i]) || m.contains(
        steps[i],
    )) by {
        lemma_concat_contains(t + w + f, m, steps[i]);
        lemma_concat_contains(t + w, f, steps[i]);
        lemma_concat_contains(t, w, steps[i]);
    }
    assert forall|i: int| 0 <= i < 4 implies ({
        &&& (#[trigger] t.contains(steps[i])) == (transcripts_enabled(s) && steps[i]
            == DeliveryStep::SaveTranscript)
        &&& w.contains(steps[i]) == (s.webhook && steps[i] == DeliveryStep::CallWebhook)
        &&& f.contains(steps[i]) == (s.firebase && steps[i] == DeliveryStep::SaveFirebase)
        &&& m.contains(steps[i]) == (s.mongodb && steps[i] == DeliveryStep::SaveMongoDb)
    }) by {
        lemma_when_contains(transcripts_enabled(s), DeliveryStep::SaveTranscript, steps[i]);
        lemma_when_contains(s.webhook, DeliveryStep::CallWebhook, steps[i]);
        lemma_when_contains(s.firebase, DeliveryStep::SaveFirebase, steps[i]);
        lemma_when_contains(s.mongodb, DeliveryStep::SaveMongoDb, steps[i]);
    }
    assert(steps[0] == DeliveryStep::SaveTranscript);
    assert(steps[1] == DeliveryStep::CallWebhook);
    assert(steps[2] == DeliveryStep::SaveFirebase);
    assert(steps[3] == DeliveryStep::SaveMongoDb);
    lemma_when_contains(transcripts_enabled(s), DeliveryStep::SaveTranscript, DeliveryStep::SaveTranscript);
    lemma_when_contains(s.webhook, DeliveryStep::CallWebhook, DeliveryStep::CallWebhook);
    lemma_when_contains(s.firebase, DeliveryStep::SaveFirebase, DeliveryStep::SaveFirebase);
    lemma_when_contains(s.mongodb, DeliveryStep::SaveMongoDb, DeliveryStep::SaveMongoDb);
}

/// Law: old data is cleaned from each store exactly when that store is configured, whatever
/// the other settings: transcripts when they are saved, Firebase and MongoDB when
/// configured; the webhook keeps nothing and is never cleaned. Each store is cleaned once.
pub proof fn law_cleanup_covers_each_configured_store(s: StorageSettings)
    ensures
        cleanup_steps(s).contains(CleanupStep::Transcripts) <==> (s.save_transcript
            && !s.no_save_transcript),
        cleanup_steps(s).contains(CleanupStep::Firebase) <==> s.firebase,
        cleanup_steps(s).contains(CleanupStep::MongoDb) <==> s.mongodb,
        cleanup_steps(s).len() == count_on(
            s.save_transcript && !s.no_save_transcript,
            false,
            s.firebase,
            s.mongodb,
        ),
{
    let t = when(transcripts_enabled(s), CleanupStep::Transcripts);
    let f = when(s.firebase, CleanupStep::Firebase);
    let m = when(s.mongodb, CleanupStep::MongoDb);
    let steps = seq![CleanupStep::Transcripts, CleanupStep::Firebase, CleanupStep::MongoDb];
    assert forall|i: int| 0 <= i < 3 implies (#[trigger] cleanup_steps(s).contains(steps[i]))
        == (t.contains(steps[i]) || f.contains(steps[i]) || m.contains(steps[i])) by {
        lemma_concat_contains(t + f, m, steps[i]);
        lemma_concat_contains(t, f, steps[i]);
    }
    assert forall|i: int| 0 <= i < 3 implies ({
        &&& (#[trigger] t.contains(steps[i])) == (transcripts_enabled(s) && steps[i]
            == CleanupStep::Transcripts)
        &&& f.contains(steps[i]) == (s.firebase && steps[i] == CleanupStep::Firebase)
        &&& m.contains(steps[i]) == (s.mongodb && steps[i] == CleanupStep::MongoDb)
    }) by {
        lemma_when_contains(transcripts_enabled(s), CleanupStep::Transcripts, steps[i]);
        lemma_when_contains(s.firebase, CleanupStep::Firebase, steps[i]);
        lemma_when_contains(s.mongodb, CleanupStep::MongoDb, steps[i]);
    }
    assert(steps[0] == CleanupStep::Transcripts);
    assert(steps[1] == CleanupStep::Firebase);
    assert(steps[2] == CleanupStep::MongoDb);
    lemma_when_contains(transcripts_enabled(s), CleanupStep::Transcripts, CleanupStep::Transcripts);
    lemma_when_contains(s.firebase, CleanupStep::Firebase, CleanupStep::Firebase);
    lemma_when_contains(s.mongodb, CleanupStep::MongoDb, CleanupStep::MongoDb);
}

} // verus!
