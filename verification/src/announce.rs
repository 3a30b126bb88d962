//! What Home Assistant has already been told about, on this connection.
//!
//! A discovery document is announced until it sticks, once per connection.

use vstd::prelude::*;

use crate::publish::{Accepted, Message, Notice, Publisher, Sent};
use crate::text;
use crate::text::views;

verus! {

/// What is announced once the document of `id` was handed to a sink, or did not
/// need to be.
pub open spec fn heard(known: Set<Seq<char>>, id: Seq<char>, answer: Option<Accepted>) -> Set<
    Seq<char>,
> {
    match answer {
        Some(Accepted::Queued) => known.insert(id),
        _ => known,
    }
}

/// What a sink was handed of a document: the document itself, once, if it
/// answered, and nothing at all if it was not asked.
pub open spec fn told(document: Notice, answer: Option<Accepted>) -> Seq<Sent> {
    match answer {
        Some(answer) => seq![Sent { notice: document, answer }],
        None => Seq::empty(),
    }
}

/// The ids that a broker has taken since the last connection.
#[derive(Debug)]
pub struct Announcer {
    announced: Vec<String>,
}

impl View for Announcer {
    type V = Set<Seq<char>>;

    closed spec fn view(&self) -> Set<Seq<char>> {
        views(self.announced@).to_set()
    }
}

impl Announcer {
    #[verifier::type_invariant]
    spec fn holds_each_once(self) -> bool {
        views(self.announced@).no_duplicates()
    }

    pub fn new() -> (out: Self)
        ensures
            out@ == Set::<Seq<char>>::empty(),
    {
        let out = Announcer { announced: Vec::new() };
        assert(out@ =~= Set::<Seq<char>>::empty());
        out
    }

    /// Forgets everything, since a broker that comes back may have too.
    pub fn reset(&mut self)
        ensures
            final(self)@ == Set::<Seq<char>>::empty(),
    {
        *self = Announcer::new();
    }

    /// Whether `id` still has to be announced on this connection.
    fn wants(&self, id: &str) -> (out: bool)
        ensures
            out == !self@.contains(id@),
    {
        for i in 0..self.announced.len()
            invariant
                forall|k: int|
                    0 <= k < i ==> #[trigger] views(self.announced@)[k] != id@,
        {
            if text::same(self.announced[i].as_str(), id) {
                assert(views(self.announced@)[i as int] == id@);
                return false;
            }
        }
        true
    }

    /// Notes how a sink answered to the document of `id`. It is announced once
    /// the sink has taken it, and never before: a refused document has not
    /// reached the broker.
    fn answered(&mut self, id: &str, accepted: Accepted)
        ensures
            final(self)@ == heard(old(self)@, id@, Some(accepted)),
    {
        if accepted == Accepted::Queued && self.wants(id) {
            proof {
                use_type_invariant(&*self);
            }
            let ghost before = views(self.announced@);
            let mut announced: Vec<String> = Vec::new();
            std::mem::swap(&mut announced, &mut self.announced);
            announced.push(id.to_owned());
            proof {
                assert(views(announced@) =~= before.push(id@));
                assert(before.push(id@).to_set() =~= before.to_set().insert(id@)) by {
                    assert forall|x: Seq<char>| #[trigger]
                        before.to_set().insert(id@).contains(x) implies before.push(
                        id@,
                    ).to_set().contains(x) by {
                        if x == id@ {
                            assert(before.push(id@)[before.len() as int] == x);
                        } else {
                            let k = choose|k: int| 0 <= k < before.len() && before[k] == x;
                            assert(before.push(id@)[k] == x);
                        }
                    }
                }
                assert forall|i: int, j: int|
                    0 <= i < before.push(id@).len() && 0 <= j < before.push(id@).len() && i
                        != j implies before.push(id@)[i] != before.push(id@)[j] by {
                    if i == before.len() {
                        assert(before.contains(before[j]));
                    } else if j == before.len() {
                        assert(before.contains(before[i]));
                    }
                }
            }
            self.announced = announced;
        } else {
            assert(old(self)@.contains(id@) ==> old(self)@.insert(id@) =~= old(self)@);
        }
    }

    /// Hands the document of `id` to a sink, unless it is announced already:
    /// then nothing is published, and the document is not even built. Gives back
    /// how the sink answered, if it was asked.
    pub fn announce<P: Publisher, B: FnOnce() -> Message>(
        &mut self,
        publisher: &mut P,
        id: &str,
        build: B,
    ) -> (out: Option<Accepted>)
        requires
            !old(self)@.contains(id@) ==> build.requires(()),
        ensures
            out is None <==> old(self)@.contains(id@),
            final(self)@ == heard(old(self)@, id@, out),
            match out {
                None => final(publisher).log() == old(publisher).log(),
                Some(answer) => exists|document: Message| #[trigger]
                    build.ensures((), document) && final(publisher).log() == old(
                        publisher,
                    ).log().push(Sent { notice: document@, answer }),
            },
    {
        if !self.wants(id) {
            return None;
        }
        let accepted = publisher.publish(build());
        self.answered(id, accepted);
        Some(accepted)
    }

    /// How many ids are announced.
    pub fn count(&self) -> (out: usize)
        ensures
            out == self@.len(),
    {
        proof {
            use_type_invariant(self);
            views(self.announced@).unique_seq_to_set();
        }
        self.announced.len()
    }
}

/// One call to an announcer.
pub enum Heard {
    /// The connection was made anew.
    Reset,
    /// An id was announced: with which document, and how the sink answered, if
    /// it was asked.
    Announced { id: Seq<char>, document: Notice, answer: Option<Accepted> },
}

/// What is announced after a history.
pub open spec fn announced_after(history: Seq<Heard>) -> Set<Seq<char>>
    decreases history.len(),
{
    if history.len() == 0 {
        Set::empty()
    } else {
        match history.last() {
            Heard::Reset => Set::empty(),
            Heard::Announced { id, document, answer } => heard(
                announced_after(history.drop_last()),
                id,
                answer,
            ),
        }
    }
}

/// What a sink was handed in the course of a history.
pub open spec fn published_in(history: Seq<Heard>) -> Seq<Sent>
    decreases history.len(),
{
    if history.len() == 0 {
        Seq::empty()
    } else {
        let before = published_in(history.drop_last());
        match history.last() {
            Heard::Reset => before,
            Heard::Announced { id, document, answer } => before + told(document, answer),
        }
    }
}

/// A history that an announcer can have, from the start of a run: no sink is
/// asked about what is announced, and a sink is asked about everything else.
pub open spec fn happened(history: Seq<Heard>) -> bool {
    forall|i: int|
        0 <= i < history.len() ==> (#[trigger] history[i] matches Heard::Announced {
            id,
            document,
            answer,
        } ==> (answer is None <==> announced_after(history.take(i)).contains(id)))
}

/// The sink took the document of `id`.
pub open spec fn is_taken(heard: Heard, id: Seq<char>) -> bool {
    heard matches Heard::Announced { id: of, document, answer } && of == id && answer == Some(
        Accepted::Queued,
    )
}

/// The document of `id` was taken, and the connection has held since.
pub open spec fn taken_on_this_connection(history: Seq<Heard>, id: Seq<char>) -> bool {
    exists|i: int|
        0 <= i < history.len() && is_taken(history[i], id) && #[trigger] holds_since(history, i)
}

pub open spec fn holds_since(history: Seq<Heard>, i: int) -> bool {
    forall|j: int| i < j < history.len() ==> !(#[trigger] history[j] is Reset)
}

/// An id is announced exactly as long as a broker has taken its document on this
/// very connection.
pub proof fn announced_means_taken_on_this_connection(history: Seq<Heard>, id: Seq<char>)
    ensures
        announced_after(history).contains(id) <==> taken_on_this_connection(history, id),
    decreases history.len(),
{
    if history.len() > 0 {
        let before = history.drop_last();
        let n = before.len() as int;
        announced_means_taken_on_this_connection(before, id);
        if taken_on_this_connection(before, id) && !(history.last() is Reset) {
            let i = choose|i: int|
                0 <= i < before.len() && is_taken(before[i], id) && #[trigger] holds_since(
                    before,
                    i,
                );
            assert(history[i] == before[i]);
            assert forall|j: int| i < j < history.len() implies !(#[trigger] history[j]
                is Reset) by {
                if j < n {
                    assert(before[j] == history[j]);
                }
            }
            assert(holds_since(history, i));
        }
        if is_taken(history.last(), id) {
            assert(holds_since(history, n));
        }
        if taken_on_this_connection(history, id) {
            let i = choose|i: int|
                0 <= i < history.len() && is_taken(history[i], id) && #[trigger] holds_since(
                    history,
                    i,
                );
            if i < n {
                assert(!(history[n] is Reset));
                assert forall|j: int| i < j < before.len() implies !(#[trigger] before[j]
                    is Reset) by {
                    assert(before[j] == history[j]);
                }
                assert(before[i] == history[i]);
                assert(holds_since(before, i));
            }
        }
    }
}

/// Each time that an id is announced, its document is published once if no
/// broker has taken it on this connection, and nothing is published if one has.
/// So a refused document is published again, a taken one is not, and after a
/// reset every document is.
pub proof fn a_document_is_published_until_it_is_taken(history: Seq<Heard>, i: int)
    requires
        happened(history),
        0 <= i < history.len(),
        history[i] is Announced,
    ensures
        history[i] matches Heard::Announced { id, document, answer } && {
            let before = history.take(i);
            match answer {
                Some(answer) => !taken_on_this_connection(before, id) && published_in(
                    history.take(i + 1),
                ) == published_in(before).push(Sent { notice: document, answer }),
                None => taken_on_this_connection(before, id) && published_in(history.take(i + 1))
                    == published_in(before),
            }
        },
{
    let before = history.take(i);
    announced_means_taken_on_this_connection(before, history[i]->id);
    assert(history.take(i + 1).drop_last() =~= before);
    assert(history.take(i + 1).last() == history[i]);
}

/// Once a broker has taken the document of an id, announcing it again publishes
/// nothing, for as long as the connection holds.
pub proof fn a_taken_document_is_never_published_again(
    history: Seq<Heard>,
    id: Seq<char>,
    i: int,
    j: int,
)
    requires
        happened(history),
        0 <= i < j < history.len(),
        is_taken(history[i], id),
        forall|k: int| i < k < j ==> !(#[trigger] history[k] is Reset),
        history[j] is Announced,
        history[j]->id == id,
    ensures
        history[j]->answer is None,
        published_in(history.take(j + 1)) == published_in(history.take(j)),
{
    let before = history.take(j);
    assert(before[i] == history[i]);
    assert forall|k: int| i < k < before.len() implies !(#[trigger] before[k] is Reset) by {
        assert(before[k] == history[k]);
    }
    assert(holds_since(before, i));
    a_document_is_published_until_it_is_taken(history, j);
}

} // verus!
