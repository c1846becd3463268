//! The game controller: authoritative state (secret word, remaining letters,
//! correct and wrong guesses, phase) and the per-frame transition that
//! advances it on the player's intent.

use vstd::prelude::*;

use crate::difficulty::Difficulty;
use crate::words::{
    choose_word, clean_list, contains_char, is_letter, spec_list_for, wf_word, word_drawn_from,
    WordLists,
};

verus! {

broadcast use vstd::seq_lib::lemma_seq_contains_after_push;

/// A game is over once this many guessed letters were absent from the word.
pub const MAX_WRONG: usize = 6;

/// The phase of the game: difficulty selection, the main guessing loop, or
/// the end screen.
#[derive(Clone, Copy, Debug, PartialEq, Eq, Structural)]
pub enum ScreenType {
    Start,
    Main,
    End,
}

/// What the player did this frame, as reported by the frontend: nothing, or
/// exactly one click (or key press) that the current screen offers.
#[derive(Clone, Copy, Debug, PartialEq, Eq, Structural)]
pub enum PlayerIntent {
    Idle,
    ChoseDifficulty(Difficulty),
    ChoseLetter(char),
    PlayAgain,
    QuitGame,
}

/// What the frame loop should do after a step: keep running, or shut down
/// because the player chose to quit.
#[derive(Clone, Copy, Debug, PartialEq, Eq, Structural)]
pub enum FrameCommand {
    Proceed,
    ExitRequested,
}

/// The mathematical value of a game state.
#[verifier::ext_equal]
pub struct GameView {
    /// Letters of the alphabet not yet guessed this game.
    pub remaining: Seq<char>,
    /// Distinct guessed letters that are in the secret word.
    pub guessed: Seq<char>,
    /// Guessed letters absent from the secret word, in guess order.
    pub wrong: Seq<char>,
    /// The secret word; empty while no round is underway.
    pub word: Seq<char>,
    /// The current phase.
    pub phase: ScreenType,
}

/// The game controller.
#[derive(Debug)]
pub struct Hangman {
    letters: Vec<char>,
    guess: Vec<char>,
    letters_wrong: Vec<char>,
    word: Vec<char>,
    screen: ScreenType,
}

/// The 26 lowercase ASCII letters in order.
pub open spec fn alphabet() -> Seq<char> {
    Seq::new(26, |i: int| (((97 + i) as u8) as char))
}

/// Every distinct letter of `word` has been guessed.
pub open spec fn all_guessed(word: Seq<char>, guessed: Seq<char>) -> bool {
    forall|i: int| 0 <= i < word.len() ==> guessed.contains(#[trigger] word[i])
}

/// A just-constructed (or just-reset) game: full alphabet remaining, no
/// guesses, no word, waiting on the difficulty screen.
pub open spec fn is_fresh(v: GameView) -> bool {
    &&& v.remaining == alphabet()
    &&& v.guessed == Seq::<char>::empty()
    &&& v.wrong == Seq::<char>::empty()
    &&& v.word == Seq::<char>::empty()
    &&& v.phase == ScreenType::Start
}

/// How one guessed character steps the state: a character no longer in the
/// remaining set is ignored; otherwise it leaves the remaining set and joins
/// exactly one of the guessed or wrong lists, and the phase follows the win
/// and loss conditions.
pub open spec fn guess_step(pre: GameView, post: GameView, c: char) -> bool {
    if !pre.remaining.contains(c) {
        post == pre
    } else {
        &&& post.word == pre.word
        &&& !post.remaining.contains(c)
        &&& (forall|x: char|
            x != c ==> (#[trigger] post.remaining.contains(x) <==> pre.remaining.contains(x)))
        &&& post.remaining.len() == pre.remaining.len() - 1
        &&& (if pre.word.contains(c) {
            post.guessed == pre.guessed.push(c) && post.wrong == pre.wrong
        } else {
            post.wrong == pre.wrong.push(c) && post.guessed == pre.guessed
        })
        &&& post.phase == (if post.wrong.len() == MAX_WRONG || all_guessed(post.word, post.guessed) {
            ScreenType::End
        } else {
            ScreenType::Main
        })
    }
}

/// A round has begun: the word was drawn from `list`, and everything else is
/// carried over from the fresh pre-state.
pub open spec fn begun_round(pre: GameView, post: GameView, list: Seq<Vec<char>>) -> bool {
    &&& wf_word(post.word)
    &&& word_drawn_from(list, post.word)
    &&& post.remaining == pre.remaining
    &&& post.guessed == pre.guessed
    &&& post.wrong == pre.wrong
    &&& post.phase == ScreenType::Main
}

impl View for Hangman {
    type V = GameView;

    closed spec fn view(&self) -> GameView {
        GameView {
            remaining: self.letters@,
            guessed: self.guess@,
            wrong: self.letters_wrong@,
            word: self.word@,
            phase: self.screen,
        }
    }
}

impl Hangman {
    /// The state invariant: the remaining, guessed and wrong letters are
    /// duplicate-free, pairwise disjoint, and together cover the alphabet;
    /// guessed letters are in the word and wrong ones are not; the wrong
    /// count never passes the maximum; and the phase agrees with the win and
    /// loss conditions.
    pub open spec fn wf(&self) -> bool {
        let v = self@;
        &&& v.remaining.no_duplicates()
        &&& v.guessed.no_duplicates()
        &&& v.wrong.no_duplicates()
        &&& (forall|c: char| #[trigger] v.remaining.contains(c) ==> is_letter(c))
        &&& (forall|c: char| #[trigger] v.guessed.contains(c) ==> v.word.contains(c) && is_letter(c))
        &&& (forall|c: char| #[trigger] v.wrong.contains(c) ==> is_letter(c) && !v.word.contains(c))
        &&& (forall|c: char|
            #[trigger] is_letter(c)
                ==> v.remaining.contains(c) || v.guessed.contains(c) || v.wrong.contains(c))
        &&& (forall|c: char| #[trigger] v.guessed.contains(c) ==> !v.remaining.contains(c))
        &&& (forall|c: char| #[trigger] v.wrong.contains(c) ==> !v.remaining.contains(c))
        &&& (forall|c: char| #[trigger] v.wrong.contains(c) ==> !v.guessed.contains(c))
        &&& v.wrong.len() <= MAX_WRONG
        &&& (v.phase == ScreenType::Start ==> is_fresh(v))
        &&& (v.phase != ScreenType::Start ==> wf_word(v.word))
        &&& (v.phase == ScreenType::Main
            ==> v.wrong.len() < MAX_WRONG && !all_guessed(v.word, v.guessed))
        &&& (v.phase == ScreenType::End ==> (all_guessed(v.word, v.guessed) <==> v.wrong.len()
            < MAX_WRONG))
    }

    /// A fresh game on the difficulty-selection screen.
    pub fn new() -> (h: Hangman)
        ensures
            h.wf(),
            is_fresh(h@),
    {
        let mut letters: Vec<char> = Vec::new();
        let mut i: u8 = 0;
        while i < 26
            invariant
                i <= 26,
                letters@.len() == i,
                forall|j: int| 0 <= j < i ==> letters@[j] == alphabet()[j],
            decreases 26 - i,
        {
            letters.push((97 + i) as char);
            i += 1;
        }
        proof {
            assert(letters@ =~= alphabet());
            lemma_alphabet_wf();
        }
        Hangman { letters, guess: Vec::new(), letters_wrong: Vec::new(), word: Vec::new(), screen: ScreenType::Start }
    }

    /// Starts a round with the given secret word: only the word and the
    /// phase change.
    pub fn begin_round(&mut self, word: Vec<char>)
        requires
            old(self).wf(),
            old(self)@.phase == ScreenType::Start,
            wf_word(word@),
        ensures
            final(self).wf(),
            final(self)@.phase == ScreenType::Main,
            final(self)@.word == word@,
            final(self)@.remaining == old(self)@.remaining,
            final(self)@.guessed == old(self)@.guessed,
            final(self)@.wrong == old(self)@.wrong,
    {
        self.word = word;
        self.screen = ScreenType::Main;
        proof {
            assert(!all_guessed(self@.word, self@.guessed)) by {
                assert(self@.word.len() > 0);
                assert(!self@.guessed.contains(self@.word[0]));
            }
        }
    }

    /// Applies one guessed character, as `guess_step` states: while a round
    /// is underway, a character still in the remaining set leaves it and
    /// lands in exactly one of the guessed or wrong lists; any other
    /// character is a no-op.
    pub fn guess_letter(&mut self, c: char)
        requires
            old(self).wf(),
            old(self)@.phase == ScreenType::Main,
        ensures
            final(self).wf(),
            guess_step(old(self)@, final(self)@, c),
            old(self)@.remaining.contains(c) ==> {
                &&& !final(self)@.remaining.contains(c)
                &&& (final(self)@.guessed.contains(c) <==> old(self)@.word.contains(c))
                &&& (final(self)@.wrong.contains(c) <==> !old(self)@.word.contains(c))
            },
    {
        if !contains_char(&self.letters, c) {
            return ;
        }
        let ghost pre = self@;
        self.letters = remove_char(&self.letters, c);
        if contains_char(&self.word, c) {
            self.guess.push(c);
            if check_all_guessed(&self.word, &self.guess) {
                self.screen = ScreenType::End;
            }
            proof {
                assert(self@.guessed == pre.guessed.push(c));
                assert(!pre.guessed.contains(c));
                lemma_push_no_dup(pre.guessed, c);
                assert(self@.guessed.contains(c));
            }
        } else {
            self.letters_wrong.push(c);
            if self.letters_wrong.len() == MAX_WRONG {
                self.screen = ScreenType::End;
            }
            proof {
                assert(self@.wrong == pre.wrong.push(c));
                assert(!pre.wrong.contains(c));
                lemma_push_no_dup(pre.wrong, c);
                assert(self@.wrong.contains(c));
                assert(!all_guessed(self@.word, self@.guessed));
            }
        }
        proof {
            assert(is_letter(c));
        }
    }

    /// Discards the whole state for a fresh game ("Play Again").
    pub fn reset(&mut self)
        ensures
            final(self).wf(),
            is_fresh(final(self)@),
    {
        *self = Hangman::new();
    }

    /// One frame's state update, from whatever the player did this frame.
    /// Difficulty selection draws the round's word from that difficulty's
    /// list; a letter steps the guessing logic; "Play Again" resets; quitting
    /// is reported back to the frame loop rather than acted on here.
    pub fn play(&mut self, intent: PlayerIntent, lists: &WordLists) -> (cmd: FrameCommand)
        requires
            old(self).wf(),
            lists.wf(),
        ensures
            final(self).wf(),
            cmd == FrameCommand::ExitRequested <==> (old(self)@.phase == ScreenType::End
                && intent == PlayerIntent::QuitGame),
            old(self)@.phase == ScreenType::Start ==> {
                &&& (intent matches PlayerIntent::ChoseDifficulty(d) ==> {
                    &&& (final(self)@.phase == ScreenType::Main || final(self)@ == old(self)@)
                    &&& (final(self)@.phase == ScreenType::Main
                        ==> begun_round(old(self)@, final(self)@, spec_list_for(*lists, d)))
                    &&& (clean_list(spec_list_for(*lists, d))
                        ==> final(self)@.phase == ScreenType::Main)
                })
                &&& (!(intent matches PlayerIntent::ChoseDifficulty(_))
                    ==> final(self)@ == old(self)@)
            },
            old(self)@.phase == ScreenType::Main ==> {
                &&& (intent matches PlayerIntent::ChoseLetter(c)
                    ==> guess_step(old(self)@, final(self)@, c))
                &&& (!(intent matches PlayerIntent::ChoseLetter(_))
                    ==> final(self)@ == old(self)@)
            },
            old(self)@.phase == ScreenType::End ==> {
                &&& (intent == PlayerIntent::PlayAgain ==> is_fresh(final(self)@))
                &&& (intent != PlayerIntent::PlayAgain ==> final(self)@ == old(self)@)
            },
    {
        match self.screen {
            ScreenType::Start => {
                if let PlayerIntent::ChoseDifficulty(d) = intent {
                    let list = lists.list_for(d);
                    if let Some(w) = choose_word(list) {
                        self.begin_round(w);
                    }
                }
                FrameCommand::Proceed
            },
            ScreenType::Main => {
                if let PlayerIntent::ChoseLetter(c) = intent {
                    self.guess_letter(c);
                }
                FrameCommand::Proceed
            },
            ScreenType::End => {
                match intent {
                    PlayerIntent::PlayAgain => {
                        self.reset();
                        FrameCommand::Proceed
                    },
                    PlayerIntent::QuitGame => FrameCommand::ExitRequested,
                    _ => FrameCommand::Proceed,
                }
            },
        }
    }

    /// The current phase.
    pub fn screen_type(&self) -> (r: ScreenType)
        ensures
            r == self@.phase,
    {
        self.screen
    }

    /// How many guesses were wrong so far; the frontend draws this many
    /// figure parts.
    pub fn num_wrong(&self) -> (r: usize)
        ensures
            r == self@.wrong.len(),
    {
        self.letters_wrong.len()
    }

    /// Whether every distinct letter of the word has been guessed.
    pub fn did_win(&self) -> (r: bool)
        ensures
            r == all_guessed(self@.word, self@.guessed),
    {
        check_all_guessed(&self.word, &self.guess)
    }

    /// Whether a letter may still be guessed; the keyboard colors its keys
    /// by this.
    pub fn is_remaining(&self, c: char) -> (r: bool)
        ensures
            r == self@.remaining.contains(c),
    {
        contains_char(&self.letters, c)
    }

    /// The secret word with every unguessed letter masked as an underscore.
    pub fn masked_word(&self) -> (r: Vec<char>)
        ensures
            r@.len() == self@.word.len(),
            forall|i: int|
                0 <= i < r@.len() ==> r@[i] == (if self@.guessed.contains(self@.word[i]) {
                    self@.word[i]
                } else {
                    '_'
                }),
    {
        let mut r: Vec<char> = Vec::new();
        let mut i: usize = 0;
        while i < self.word.len()
            invariant
                i <= self@.word.len(),
                r@.len() == i,
                forall|j: int|
                    0 <= j < i ==> r@[j] == (if self@.guessed.contains(self@.word[j]) {
                        self@.word[j]
                    } else {
                        '_'
                    }),
            decreases self@.word.len() - i,
        {
            let c = self.word[i];
            if contains_char(&self.guess, c) {
                r.push(c);
            } else {
                r.push('_');
            }
            i += 1;
        }
        r
    }
}

/// Every entry of the alphabet is a lowercase letter, and conversely every
/// lowercase letter occurs in it exactly once.
pub proof fn lemma_alphabet_wf()
    ensures
        alphabet().no_duplicates(),
        forall|c: char| #[trigger] alphabet().contains(c) ==> is_letter(c),
        forall|c: char| #[trigger] is_letter(c) ==> alphabet().contains(c),
{
    assert forall|c: char| #[trigger] is_letter(c) implies alphabet().contains(c) by {
        let i = c as int - 97;
        assert(alphabet()[i] == c);
    }
    assert forall|c: char| #[trigger] alphabet().contains(c) implies is_letter(c) by {
        let i = choose|i: int| 0 <= i < 26 && alphabet()[i] == c;
        assert(alphabet()[i] == c);
    }
    assert(alphabet().no_duplicates()) by {
        assert forall|i: int, j: int| 0 <= i < j < 26 implies alphabet()[i] != alphabet()[j] by {
            assert(alphabet()[i] as u8 == 97 + i);
            assert(alphabet()[j] as u8 == 97 + j);
        }
    }
}

/// The number of wrong guesses never passes the configured maximum, and a
/// game that has reached the maximum is over and lost.
pub proof fn lemma_wrong_bounded(h: &Hangman)
    requires
        h.wf(),
    ensures
        h@.wrong.len() <= MAX_WRONG,
        h@.wrong.len() == MAX_WRONG ==> h@.phase == ScreenType::End && !all_guessed(
            h@.word,
            h@.guessed,
        ),
{
}

/// A game that is over was won exactly when every distinct letter of the
/// secret word was guessed; while play goes on, the word is never already
/// fully guessed.
pub proof fn lemma_game_over_win(h: &Hangman)
    requires
        h.wf(),
    ensures
        h@.phase == ScreenType::End ==> (all_guessed(h@.word, h@.guessed) <==> h@.wrong.len()
            < MAX_WRONG),
        h@.phase == ScreenType::Main ==> !all_guessed(h@.word, h@.guessed),
{
}

/// Pushing an element a duplicate-free list lacks keeps it duplicate-free.
proof fn lemma_push_no_dup(s: Seq<char>, e: char)
    requires
        s.no_duplicates(),
        !s.contains(e),
    ensures
        s.push(e).no_duplicates(),
{
    assert forall|i: int, j: int|
        0 <= i < s.push(e).len() && 0 <= j < s.push(e).len() && i != j implies s.push(e)[i]
        != s.push(e)[j] by {
        if i == s.len() {
            if s[j] == e {
                assert(s.contains(e));
            }
        } else if j == s.len() {
            if s[i] == e {
                assert(s.contains(e));
            }
        }
    }
}

/// Removes the single occurrence of `c` from a duplicate-free list.
fn remove_char(v: &Vec<char>, c: char) -> (r: Vec<char>)
    requires
        v@.no_duplicates(),
        v@.contains(c),
    ensures
        r@.no_duplicates(),
        !r@.contains(c),
        forall|x: char| x != c ==> (#[trigger] r@.contains(x) <==> v@.contains(x)),
        r@.len() == v@.len() - 1,
{
    let mut r: Vec<char> = Vec::new();
    let mut i: usize = 0;
    while i < v.len()
        invariant
            i <= v@.len(),
            v@.no_duplicates(),
            v@.contains(c),
            r@.no_duplicates(),
            !r@.contains(c),
            forall|x: char| #[trigger] r@.contains(x) ==> v@.take(i as int).contains(x),
            forall|x: char|
                x != c && v@.take(i as int).contains(x) ==> #[trigger] r@.contains(x),
            r@.len() == (if v@.take(i as int).contains(c) {
                i - 1
            } else {
                i as int
            }),
        decreases v@.len() - i,
    {
        let x = v[i];
        proof {
            assert(v@.take(i as int + 1) =~= v@.take(i as int).push(v@[i as int]));
            assert forall|y: char| #[trigger] v@.take(i as int).contains(y) implies v@.contains(
                y,
            ) by {
                let j = choose|j: int| 0 <= j < i && v@.take(i as int)[j] == y;
                assert(v@[j] == y);
            }
            // a duplicate-free list's prefix does not hold its next element
            assert(!v@.take(i as int).contains(v@[i as int])) by {
                if v@.take(i as int).contains(v@[i as int]) {
                    let j = choose|j: int| 0 <= j < i && v@.take(i as int)[j] == v@[i as int];
                    assert(v@[j] == v@[i as int]);
                }
            }
        }
        let ghost r_pre = r@;
        if x != c {
            r.push(x);
            proof {
                assert(r@ == r_pre.push(x));
                lemma_push_no_dup(r_pre, x);
            }
        }
        i += 1;
    }
    proof {
        assert(v@.take(v@.len() as int) =~= v@);
    }
    r
}

/// Whether every distinct letter of `word` occurs in `guessed`.
fn check_all_guessed(word: &Vec<char>, guessed: &Vec<char>) -> (r: bool)
    ensures
        r == all_guessed(word@, guessed@),
{
    let mut i: usize = 0;
    while i < word.len()
        invariant
            i <= word@.len(),
            forall|j: int| 0 <= j < i ==> guessed@.contains(#[trigger] word@[j]),
        decreases word@.len() - i,
    {
        if !contains_char(guessed, word[i]) {
            return false;
        }
        i += 1;
    }
    true
}

} // verus!
