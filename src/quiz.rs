use vstd::prelude::*;

verus! {

/// The most questions that one session holds.
pub const MAX_SESSION_QUESTIONS: usize = 26;

/// A multiple-choice question.
#[derive(Clone, Debug)]
pub struct Question {
    pub id: u32,
    pub question: String,
    pub options: Vec<String>,
    pub correct: usize,
}

/// The mathematical value of a question.
pub ghost struct QuestionView {
    pub id: u32,
    pub question: Seq<char>,
    pub options: Seq<Seq<char>>,
    pub correct: usize,
}

impl View for Question {
    type V = QuestionView;

    open spec fn view(&self) -> QuestionView {
        QuestionView {
            id: self.id,
            question: self.question@,
            options: self.options@.map_values(|o: String| o@),
            correct: self.correct,
        }
    }
}

impl QuestionView {
    /// At least two options, and the correct index names one of them.
    pub open spec fn wf(self) -> bool {
        self.options.len() >= 2 && self.correct < self.options.len()
    }
}

/// The values of a sequence of questions.
pub open spec fn views(s: Seq<Question>) -> Seq<QuestionView> {
    s.map_values(|q: Question| q@)
}

/// The ids of a sequence of question values, in order.
pub open spec fn ids(s: Seq<QuestionView>) -> Seq<u32> {
    s.map_values(|q: QuestionView| q.id)
}

/// No two entries share an id.
pub open spec fn unique_ids(s: Seq<QuestionView>) -> bool {
    forall|i: int, j: int| 0 <= i < s.len() && 0 <= j < s.len() && i != j ==> s[i].id != s[j].id
}

/// How many questions a session drawn from `n` questions holds.
pub open spec fn session_size(n: nat) -> nat {
    if n < MAX_SESSION_QUESTIONS as nat {
        n
    } else {
        MAX_SESSION_QUESTIONS as nat
    }
}

/// `s` is the first `session_size` entries of some reordering of `all`.
pub open spec fn drawn_from(s: Seq<QuestionView>, all: Seq<QuestionView>) -> bool {
    exists|p: Seq<QuestionView>|
        #[trigger] p.to_multiset() == all.to_multiset() && s == p.take(session_size(all.len()) as int)
}

/// One quiz attempt: a shuffled selection of the store.
#[derive(Clone, Debug)]
pub struct QuizSession {
    pub questions: Vec<Question>,
    pub total: usize,
}

impl QuizSession {
    /// The session holds `session_size` questions of `all`, in some order, and `total`
    /// counts them.
    pub open spec fn drawn_from(&self, all: Seq<QuestionView>) -> bool {
        &&& self.total == session_size(all.len())
        &&& self.questions@.len() == self.total
        &&& drawn_from(views(self.questions@), all)
    }
}

/// Relies on rand's `SliceRandom::shuffle` over the thread-local generator: it only swaps
/// entries, so the contents are reordered and nothing else.
#[verifier::external_body]
fn shuffle_in_place<T>(v: &mut Vec<T>)
    ensures
        final(v)@.len() == old(v)@.len(),
        final(v)@.to_multiset() == old(v)@.to_multiset(),
{
    let mut rng = rand::thread_rng();
    rand::seq::SliceRandom::shuffle(v.as_mut_slice(), &mut rng);
}

/// Reordering a sequence reorders the images of its entries alike.
pub proof fn lemma_map_reorder<A, B>(a: Seq<A>, b: Seq<A>, f: spec_fn(A) -> B)
    requires
        a.to_multiset() == b.to_multiset(),
    ensures
        a.map_values(f).to_multiset() == b.map_values(f).to_multiset(),
    decreases a.len(),
{
    broadcast use vstd::seq_lib::group_to_multiset_ensures;

    if a.len() == 0 {
        assert(b.to_multiset().len() == 0);
        assert(b.len() == 0);
        assert(a.map_values(f) =~= Seq::<B>::empty());
        assert(b.map_values(f) =~= Seq::<B>::empty());
    } else {
        let x = a.last();
        let a1 = a.drop_last();
        assert(a1.push(x) =~= a);
        assert(b.to_multiset().count(x) > 0);
        assert(b.contains(x));
        let j = choose|j: int| 0 <= j < b.len() && b[j] == x;
        let b1 = b.remove(j);
        assert(a1.to_multiset() =~= b1.to_multiset());
        lemma_map_reorder(a1, b1, f);
        assert(a.map_values(f) =~= a1.map_values(f).push(f(x)));
        assert(b.map_values(f) =~= b1.map_values(f).insert(j, f(x)));
    }
}

/// A session made of the first entries of `shuffled`: at most `MAX_SESSION_QUESTIONS` of
/// them, in their order.
pub fn session_from_shuffled(shuffled: Vec<Question>) -> (r: QuizSession)
    ensures
        r.total == session_size(shuffled@.len()),
        r.questions@ == shuffled@.take(r.total as int),
{
    let mut questions = shuffled;
    let total: usize = if questions.len() < MAX_SESSION_QUESTIONS {
        questions.len()
    } else {
        MAX_SESSION_QUESTIONS
    };
    questions.truncate(total);
    QuizSession { questions, total }
}

/// A fresh session: a copy of `all`, uniformly shuffled, cut to `MAX_SESSION_QUESTIONS`.
pub fn create_session(all: &[Question]) -> (r: QuizSession)
    ensures
        r.total == session_size(all@.len()),
        r.drawn_from(views(all@)),
{
    let mut copy: Vec<Question> = Vec::new();
    let mut i: usize = 0;
    while i < all.len()
        invariant
            i <= all@.len(),
            copy@.len() == i,
            forall|k: int| 0 <= k < i ==> copy@[k]@ == all@[k]@,
        decreases all@.len() - i,
    {
        copy.push(all[i].duplicate());
        i = i + 1;
    }
    assert(views(copy@) =~= views(all@));
    let ghost before = copy@;
    shuffle_in_place(&mut copy);
    proof {
        lemma_map_reorder(copy@, before, |q: Question| q@);
    }
    let r = session_from_shuffled(copy);
    proof {
        let p = views(copy@);
        assert(views(r.questions@) =~= p.take(r.total as int));
        assert(p.to_multiset() == views(all@).to_multiset());
    }
    r
}

/// Drawn from a store whose ids are unique, a session repeats no id, and each of its
/// questions is one of the store's.
pub proof fn lemma_session_no_duplicates(all: Seq<QuestionView>, s: Seq<QuestionView>)
    requires
        unique_ids(all),
        drawn_from(s, all),
    ensures
        unique_ids(s),
        forall|i: int| 0 <= i < s.len() ==> all.contains(#[trigger] s[i]),
{
    broadcast use vstd::seq_lib::group_to_multiset_ensures;

    let p = choose|p: Seq<QuestionView>|
        #[trigger] p.to_multiset() == all.to_multiset() && s == p.take(
            session_size(all.len()) as int,
        );
    assert(p.len() == all.len()) by {
        assert(p.to_multiset().len() == all.to_multiset().len());
    }
    assert forall|i: int| 0 <= i < s.len() implies all.contains(#[trigger] s[i]) by {
        assert(s[i] == p[i]);
        assert(p.contains(p[i]));
        assert(all.to_multiset().count(s[i]) > 0);
    }
    let ids_all = ids(all);
    let ids_p = ids(p);
    assert(ids_all.no_duplicates());
    ids_all.lemma_multiset_has_no_duplicates();
    lemma_map_reorder(p, all, |q: QuestionView| q.id);
    ids_p.lemma_multiset_has_no_duplicates_conv();
    assert forall|i: int, j: int| 0 <= i < s.len() && 0 <= j < s.len() && i != j implies s[i].id
        != s[j].id by {
        assert(ids_p[i] != ids_p[j]);
    }
}

/// The ids of a drawn session form a sub-multiset of the store's ids, and there are
/// `session_size` of them.
pub proof fn lemma_session_ids_subset(all: Seq<QuestionView>, s: Seq<QuestionView>)
    requires
        drawn_from(s, all),
    ensures
        ids(s).to_multiset().subset_of(ids(all).to_multiset()),
        ids(s).len() == session_size(all.len()),
{
    broadcast use vstd::seq_lib::group_to_multiset_ensures;
    broadcast use vstd::multiset::group_multiset_axioms;

    let k = session_size(all.len()) as int;
    let p = choose|p: Seq<QuestionView>|
        #[trigger] p.to_multiset() == all.to_multiset() && s == p.take(k);
    assert(p.len() == all.len()) by {
        assert(p.to_multiset().len() == all.to_multiset().len());
    }
    lemma_map_reorder(p, all, |q: QuestionView| q.id);
    let rest = ids(p.skip(k));
    assert(ids(p) =~= ids(s) + rest);
    vstd::seq_lib::lemma_multiset_commutative(ids(s), rest);
    assert forall|v: u32| ids(s).to_multiset().count(v) <= ids(all).to_multiset().count(v) by {
        assert(ids(p).to_multiset().count(v) == ids(s).to_multiset().count(v)
            + rest.to_multiset().count(v));
    }
}

/// The only session drawn from an empty store is empty, with a total of zero.
pub proof fn lemma_empty_store_session(session: QuizSession)
    requires
        session.drawn_from(Seq::empty()),
    ensures
        session.questions@.len() == 0,
        session.total == 0,
{
}

impl Question {
    /// A copy of the question that owns its own strings.
    pub fn duplicate(&self) -> (r: Question)
        ensures
            r@ == self@,
    {
        let mut options: Vec<String> = Vec::new();
        let mut i: usize = 0;
        while i < self.options.len()
            invariant
                i <= self.options.len(),
                options@.len() == i,
                forall|k: int| 0 <= k < i ==> options@[k]@ == self.options@[k]@,
            decreases self.options.len() - i,
        {
            options.push(self.options[i].clone());
            i = i + 1;
        }
        assert(options@.map_values(|o: String| o@) =~= self.options@.map_values(|o: String| o@));
        Question { id: self.id, question: self.question.clone(), options, correct: self.correct }
    }
}

} // verus!
