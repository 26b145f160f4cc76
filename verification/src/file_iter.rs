use vstd::prelude::*;
use std::collections::VecDeque;

use crate::immutable::market::{Market, MarketModel, all_markets_wf, market_ids, market_models, market_position};
use crate::market::{MarketMut, MarketMutModel, MutBook, all_mut_wf, mut_ids, mut_models, mut_position};
use crate::market_change::name_index;

verus! {

/// What a file iterator's step gives: the next market; a request for the
/// next message of the file (the one read changed no market); or the end of
/// the file (no message could be had).
pub enum FileStep<M> {
    Market(M),
    ReadMore,
    End,
}

/// The markets of a file after one is handed out: it replaces the market of
/// its id, else is added.
pub open spec fn recorded(books: Seq<MarketModel>, m: MarketModel) -> Seq<MarketModel> {
    let i = name_index(market_ids(books), m.market_id);
    if i >= 0 {
        books.update(i, m)
    } else {
        books.push(m)
    }
}

pub open spec fn stack_models(s: Seq<Market>) -> Seq<MarketModel> {
    s.map_values(|m: Market| m@)
}

/// A step's result read as a model.
pub open spec fn step_model(r: FileStep<Market>) -> FileStep<MarketModel> {
    match r {
        FileStep::Market(m) => FileStep::Market(m@),
        FileStep::ReadMore => FileStep::ReadMore,
        FileStep::End => FileStep::End,
    }
}

pub open spec fn opt_stack_models(message: Option<Vec<Market>>) -> Option<Seq<MarketModel>> {
    match message {
        Some(v) => Some(stack_models(v@)),
        None => None,
    }
}

/// One step of a file's markets: the next of the message being read
/// (`stack`); else the first of the next message, which is read only then
/// (the rest of it then being read); a message with none asks for the next;
/// no message ends the file.
pub open spec fn file_step(stack: Seq<MarketModel>, message: Option<Seq<MarketModel>>) -> (
    FileStep<MarketModel>,
    Seq<MarketModel>,
) {
    if stack.len() > 0 {
        (FileStep::Market(stack[0]), stack.drop_first())
    } else {
        match message {
            None => (FileStep::End, stack),
            Some(v) => if v.len() == 0 {
                (FileStep::ReadMore, stack)
            } else {
                (FileStep::Market(v[0]), v.drop_first())
            },
        }
    }
}

/// The markets handed out when the steps are taken until the file ends,
/// each message of `msgs` (the markets it changed) given in turn when the
/// step asks for one.
pub open spec fn file_run(stack: Seq<MarketModel>, msgs: Seq<Seq<MarketModel>>) -> Seq<MarketModel>
    decreases msgs.len(), stack.len(),
{
    let reads = stack.len() == 0 && msgs.len() > 0;
    let message = if reads {
        Some(msgs[0])
    } else {
        None
    };
    let rest = if reads {
        msgs.drop_first()
    } else {
        msgs
    };
    let (r, next) = file_step(stack, message);
    match r {
        FileStep::Market(m) => seq![m] + file_run(next, rest),
        FileStep::ReadMore => file_run(next, rest),
        FileStep::End => seq![],
    }
}

/// The messages' markets one after another.
pub open spec fn concat_all(msgs: Seq<Seq<MarketModel>>) -> Seq<MarketModel>
    decreases msgs.len(),
{
    if msgs.len() == 0 {
        seq![]
    } else {
        msgs[0] + concat_all(msgs.drop_first())
    }
}

/// Taking the steps as `file_step` says, each message given when a step asks
/// for one, hands out every market of every message, in order: those left
/// of the message being read, then each message's in turn; a message that
/// changed no market hands out none and does not end the file.
pub proof fn lemma_markets_in_order(stack: Seq<MarketModel>, msgs: Seq<Seq<MarketModel>>)
    ensures
        file_run(stack, msgs) == stack + concat_all(msgs),
    decreases msgs.len(), stack.len(),
{
    if stack.len() > 0 {
        lemma_markets_in_order(stack.drop_first(), msgs);
        assert(seq![stack[0]] + (stack.drop_first() + concat_all(msgs)) =~= stack + concat_all(msgs));
    } else if msgs.len() == 0 {
        assert(stack + concat_all(msgs) =~= Seq::<MarketModel>::empty());
    } else if msgs[0].len() == 0 {
        lemma_markets_in_order(stack, msgs.drop_first());
        assert(concat_all(msgs) =~= concat_all(msgs.drop_first()));
        assert(stack + concat_all(msgs) =~= concat_all(msgs));
    } else {
        lemma_markets_in_order(msgs[0].drop_first(), msgs.drop_first());
        assert(seq![msgs[0][0]] + (msgs[0].drop_first() + concat_all(msgs.drop_first())) =~= stack + concat_all(msgs));
    }
}

/// The markets of a file as they are handed out: those of the message
/// being read come one by one; the file's markets are the latest of each.
pub struct FileIter {
    pub books: Vec<Market>,
    pub iter_stack: VecDeque<Market>,
}

impl FileIter {
    pub open spec fn wf(&self) -> bool {
        &&& all_markets_wf(self.books@)
        &&& forall|k: int| 0 <= k < self.iter_stack@.len() ==> (#[trigger] self.iter_stack@[k]).wf()
    }

    pub fn new() -> (r: Self)
        ensures
            r.wf(),
            r.books@.len() == 0,
            r.iter_stack@.len() == 0,
    {
        FileIter { books: Vec::new(), iter_stack: VecDeque::new() }
    }

    /// Whether the next market needs the next message of the file.
    pub fn needs_message(&self) -> (r: bool)
        ensures
            r == (self.iter_stack@.len() == 0),
    {
        self.iter_stack.len() == 0
    }

    fn record(&mut self, m: &Market)
        requires
            old(self).wf(),
            m.wf(),
        ensures
            final(self).wf(),
            market_models(final(self).books@) == recorded(market_models(old(self).books@), m@),
            final(self).iter_stack@ == old(self).iter_stack@,
    {
        let ghost before = market_models(self.books@);
        let c = m.clone();
        match market_position(self.books.as_slice(), m.market_id.as_str()) {
            Some(i) => {
                self.books.set(i, c);
                assert(market_models(self.books@) =~= before.update(i as int, m@));
            },
            None => {
                self.books.push(c);
                assert(market_models(self.books@) =~= before.push(m@));
            },
        }
    }

    /// The next market: the next of the message being read; else the first
    /// of the next message (`message`: the markets it changed, none where
    /// the file has ended or could not be read). A message that changed no
    /// market asks for the message after it. Each market handed out becomes
    /// the file's market of its id.
    pub fn next(&mut self, message: Option<Vec<Market>>) -> (r: FileStep<Market>)
        requires
            old(self).wf(),
            message matches Some(v) ==> all_markets_wf(v@),
        ensures
            final(self).wf(),
            (step_model(r), stack_models(final(self).iter_stack@)) == file_step(
                stack_models(old(self).iter_stack@),
                opt_stack_models(message),
            ),
            old(self).iter_stack@.len() > 0 ==> {
                &&& r matches FileStep::Market(m)
                &&& m@ == old(self).iter_stack@[0]@
                &&& stack_models(final(self).iter_stack@) == stack_models(old(self).iter_stack@).drop_first()
                &&& market_models(final(self).books@) == recorded(market_models(old(self).books@), m@)
            },
            old(self).iter_stack@.len() == 0 ==> match message {
                None => r is End && final(self).books@ == old(self).books@ && final(self).iter_stack@.len() == 0,
                Some(v) => if v@.len() == 0 {
                    r is ReadMore && final(self).books@ == old(self).books@ && final(self).iter_stack@.len() == 0
                } else {
                    &&& r matches FileStep::Market(m)
                    &&& m@ == v@[0]@
                    &&& stack_models(final(self).iter_stack@) == stack_models(v@).drop_first()
                    &&& market_models(final(self).books@) == recorded(market_models(old(self).books@), m@)
                },
            },
    {
        if self.iter_stack.len() > 0 {
            let ghost before = self.iter_stack@;
            let m = self.iter_stack.pop_front().unwrap();
            assert(stack_models(self.iter_stack@) =~= stack_models(before).drop_first());
            self.record(&m);
            FileStep::Market(m)
        } else {
            match message {
                None => FileStep::End,
                Some(v) => {
                    if v.len() == 0 {
                        return FileStep::ReadMore;
                    }
                    let ghost vs = v@;
                    let mut stack: VecDeque<Market> = VecDeque::new();
                    let mut v = v;
                    let mut first = Market {
                        market_id: String::new(),
                        publish_time: crate::datetime::DateTime::new(0),
                        clk: String::new(),
                        runners: Vec::new(),
                        total_matched: 0,
                        def: crate::market_definition::MarketDefinition::default(),
                    };
                    v.set_and_swap(0, &mut first);
                    let mut k: usize = 1;
                    while k < v.len()
                        invariant
                            1 <= k <= vs.len(),
                            v@.len() == vs.len(),
                            forall|j: int| k <= j < vs.len() ==> v@[j] == vs[j],
                            stack@.len() == k - 1,
                            forall|j: int| 0 <= j < k - 1 ==> #[trigger] stack@[j] == vs[j + 1],
                        decreases vs.len() - k,
                    {
                        let mut x = Market {
                            market_id: String::new(),
                            publish_time: crate::datetime::DateTime::new(0),
                            clk: String::new(),
                            runners: Vec::new(),
                            total_matched: 0,
                            def: crate::market_definition::MarketDefinition::default(),
                        };
                        v.set_and_swap(k, &mut x);
                        stack.push_back(x);
                        k = k + 1;
                    }
                    assert(stack_models(stack@) =~= stack_models(vs).drop_first());
                    self.iter_stack = stack;
                    self.record(&first);
                    FileStep::Market(first)
                },
            }
        }
    }
}

/// The file's markets after a changed market is handed out: it replaces
/// the market of its id, else is added.
pub open spec fn mut_recorded(books: Seq<MarketMutModel>, m: MarketMutModel) -> Seq<MarketMutModel> {
    let i = name_index(mut_ids(books), m.market_id);
    if i >= 0 {
        books.update(i, m)
    } else {
        books.push(m)
    }
}

/// The markets of a file whose markets change in place, as they are handed
/// out. The file's markets are those a message's changes are applied to.
pub struct MutFileIter {
    pub books: Vec<MarketMut>,
    pub iter_stack: VecDeque<MutBook>,
}

impl MutFileIter {
    pub open spec fn wf(&self) -> bool {
        &&& all_mut_wf(self.books@)
        &&& forall|k: int|
            0 <= k < self.iter_stack@.len() ==> match #[trigger] self.iter_stack@[k] {
                MutBook::Existing(i) => i < self.books@.len(),
                MutBook::Created(m) => m.wf(),
            }
    }

    pub fn new() -> (r: Self)
        ensures
            r.wf(),
            r.books@.len() == 0,
            r.iter_stack@.len() == 0,
    {
        MutFileIter { books: Vec::new(), iter_stack: VecDeque::new() }
    }

    pub fn needs_message(&self) -> (r: bool)
        ensures
            r == (self.iter_stack@.len() == 0),
    {
        self.iter_stack.len() == 0
    }

    /// The next market, as it stands: the next the message being read
    /// changed; else the first the next message changed (`message`, none
    /// where the file has ended or could not be read). A message that
    /// changed no market asks for the message after it. A new market handed
    /// out becomes the file's market of its id.
    pub fn next(&mut self, message: Option<Vec<MutBook>>) -> (r: FileStep<MarketMut>)
        requires
            old(self).wf(),
            message matches Some(v) ==> forall|k: int|
                0 <= k < v@.len() ==> match #[trigger] v@[k] {
                    MutBook::Existing(i) => i < old(self).books@.len(),
                    MutBook::Created(m) => m.wf(),
                },
        ensures
            final(self).wf(),
            ({
                let src: Option<Seq<MutBook>> = if old(self).iter_stack@.len() > 0 {
                    Some(old(self).iter_stack@)
                } else {
                    match message {
                        Some(v) => if v@.len() > 0 {
                            Some(v@)
                        } else {
                            None
                        },
                        None => None,
                    }
                };
                match src {
                    None => {
                        &&& final(self).books@ == old(self).books@
                        &&& final(self).iter_stack@.len() == 0
                        &&& if message is Some {
                            r is ReadMore
                        } else {
                            r is End
                        }
                    },
                    Some(s) => {
                        let m = match s[0] {
                            MutBook::Existing(i) => old(self).books@[i as int]@,
                            MutBook::Created(c) => c@,
                        };
                        &&& r matches FileStep::Market(x) && x@ == m
                        &&& final(self).iter_stack@ == s.drop_first()
                        &&& mut_models(final(self).books@) == mut_recorded(mut_models(old(self).books@), m)
                    },
                }
            }),
    {
        let src = if self.iter_stack.len() > 0 {
            None
        } else {
            match message {
                Some(v) => if v.len() > 0 {
                    Some(v)
                } else {
                    return FileStep::ReadMore;
                },
                None => {
                    return FileStep::End;
                },
            }
        };
        match src {
            Some(v) => {
                let mut d: VecDeque<MutBook> = VecDeque::new();
                let ghost vs = v@;
                let mut v = v;
                let mut k: usize = 0;
                while k < v.len()
                    invariant
                        0 <= k <= vs.len(),
                        v@.len() == vs.len(),
                        forall|j: int| k <= j < vs.len() ==> v@[j] == vs[j],
                        d@.len() == k,
                        forall|j: int| 0 <= j < k ==> #[trigger] d@[j] == vs[j],
                    decreases vs.len() - k,
                {
                    let mut x = MutBook::Existing(0);
                    v.set_and_swap(k, &mut x);
                    d.push_back(x);
                    k = k + 1;
                }
                assert(d@ =~= vs);
                self.iter_stack = d;
            },
            None => {},
        }
        let ghost s = self.iter_stack@;
        let b = self.iter_stack.pop_front().unwrap();
        assert(self.iter_stack@ =~= s.drop_first());
        let m = match b {
            MutBook::Existing(i) => self.books[i].clone(),
            MutBook::Created(c) => c,
        };
        let ghost before = mut_models(self.books@);
        let c = m.clone();
        match mut_position(&self.books, m.market_id.as_str()) {
            Some(i) => {
                self.books.set(i, c);
                assert(mut_models(self.books@) =~= before.update(i as int, m@));
            },
            None => {
                self.books.push(c);
                assert(mut_models(self.books@) =~= before.push(m@));
            },
        }
        FileStep::Market(m)
    }
}

} // verus!
