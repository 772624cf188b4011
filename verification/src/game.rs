//! The game state: the current target word, the letter pool and the two
//! counters, with the rendering of the word and the screen, and the
//! validation of the player's input.

use vstd::prelude::*;

use crate::letter_pool::LetterPool;
use crate::letter_pool::alphabet;
use crate::letter_pool::pool_display;
use crate::letter_pool::vec_contains;
use crate::text::decimal;
use crate::text::render_u32;

verus! {

/// The currency the player starts a run with.
pub const STARTING_CURRENCY: u32 = 4;

/// Reaching this much currency wins the game.
pub const MAX_CURRENCY: u32 = 20;

/// The main structure of the game: the word to guess, the pool of
/// letters, and the two counters.
pub struct Game {
    word: String,
    lp: LetterPool,
    currency: u32,
    found: u32,
}

/// An accepted player input: either the quit token or one uppercase
/// letter to buy.
pub enum PlayerInput {
    Quit,
    Letter(char),
}

/// The display form of one character of the word: the `-` sentinel is
/// always shown as `" - "`, a bought letter as itself plus a space, and
/// anything else masked as `"_ "`.
pub open spec fn masked_char(c: char, bought: Seq<char>) -> Seq<char> {
    if c == '-' {
        seq![' ', '-', ' ']
    } else if bought.contains(c) {
        seq![c, ' ']
    } else {
        seq!['_', ' ']
    }
}

/// The display form of a whole word, character by character.
pub open spec fn masked_word(word: Seq<char>, bought: Seq<char>) -> Seq<char>
    decreases word.len(),
{
    if word.len() == 0 {
        Seq::empty()
    } else {
        masked_word(word.drop_last(), bought) + masked_char(word.last(), bought)
    }
}

/// Renders `word` as shown to the player, given the bought letters.
pub fn render_masked(word: &str, bought: &Vec<char>) -> (r: String)
    ensures
        r@ == masked_word(word@, bought@),
{
    proof {
        reveal_strlit(" - ");
        reveal_strlit("_ ");
    }
    let n = word.unicode_len();
    let mut s = String::new();
    let mut i: usize = 0;
    while i < n
        invariant
            n == word@.len(),
            i <= n,
            s@ == masked_word(word@.take(i as int), bought@),
        decreases n - i,
    {
        let c = word.get_char(i);
        let ghost s0 = s@;
        if c == '-' {
            s.append(" - ");
            proof {
                reveal_strlit(" - ");
                assert(s@ =~= s0 + masked_char(c, bought@));
            }
        } else if vec_contains(bought, c) {
            s.push(c);
            s.push(' ');
            proof {
                assert(s@ =~= s0 + masked_char(c, bought@));
            }
        } else {
            s.append("_ ");
            proof {
                reveal_strlit("_ ");
                assert(s@ =~= s0 + masked_char(c, bought@));
            }
        }
        proof {
            assert(word@.take(i + 1).drop_last() =~= word@.take(i as int));
            assert(word@.take(i + 1).last() == c);
            assert(s@ =~= masked_word(word@.take(i + 1), bought@));
        }
        i += 1;
    }
    proof {
        assert(word@.take(n as int) =~= word@);
    }
    s
}

/// The uppercase form of one character: a lowercase ASCII letter is
/// raised, anything else is left as it is.
pub open spec fn upper_char(c: char) -> char {
    if 'a' <= c && c <= 'z' {
        ((c as u8) - 32) as char
    } else {
        c
    }
}

/// A raw token uppercased character by character.
pub open spec fn upper_word(s: Seq<char>) -> Seq<char> {
    s.map_values(|c: char| upper_char(c))
}

/// Uppercases the raw token read from the player.
pub fn normalize_input(raw: &str) -> (r: String)
    ensures
        r@ == upper_word(raw@),
{
    let n = raw.unicode_len();
    let mut s = String::new();
    let mut i: usize = 0;
    while i < n
        invariant
            n == raw@.len(),
            i <= n,
            s@ == upper_word(raw@.take(i as int)),
        decreases n - i,
    {
        let c = raw.get_char(i);
        let u: char = if 'a' <= c && c <= 'z' {
            ((c as u8) - 32) as char
        } else {
            c
        };
        s.push(u);
        proof {
            assert(u == upper_char(c));
            assert(s@ =~= upper_word(raw@.take(i + 1)));
        }
        i += 1;
    }
    proof {
        assert(raw@.take(n as int) =~= raw@);
    }
    s
}

/// Checks one raw token from the player, as the prompt loop does: the
/// token is uppercased; `"QQ"` (in any case) quits; a single character
/// `A`–`Z` asks to buy that letter; anything else is rejected, and the
/// caller prompts again.
pub fn validate_input(raw: &str) -> (r: Option<PlayerInput>)
    ensures
        ({
            let up = upper_word(raw@);
            match r {
                Some(PlayerInput::Quit) => up == "QQ"@,
                Some(PlayerInput::Letter(c)) => up.len() == 1 && up[0] == c && 'A' <= c <= 'Z',
                None => up != "QQ"@ && !(up.len() == 1 && 'A' <= up[0] <= 'Z'),
            }
        }),
{
    proof {
        reveal_strlit("QQ");
    }
    let up = normalize_input(raw);
    let n = up.as_str().unicode_len();
    if n == 2 && up.as_str().get_char(0) == 'Q' && up.as_str().get_char(1) == 'Q' {
        proof {
            assert(up@ =~= "QQ"@);
        }
        Some(PlayerInput::Quit)
    } else if n == 1 {
        let c = up.as_str().get_char(0);
        if 'A' <= c && c <= 'Z' {
            Some(PlayerInput::Letter(c))
        } else {
            None
        }
    } else {
        proof {
            if up@ == "QQ"@ {
                assert(up@[0] == 'Q' && up@[1] == 'Q');
            }
        }
        None
    }
}

/// The main loop's decision after one round: the run goes on unless the
/// accepted input was the quit token.
pub fn continues(input: &PlayerInput) -> (r: bool)
    ensures
        r == !(input is Quit),
{
    match input {
        PlayerInput::Quit => false,
        PlayerInput::Letter(_) => true,
    }
}

impl Game {
    /// The current target word.
    pub closed spec fn spec_word(&self) -> Seq<char> {
        self.word@
    }

    /// The owned letter pool.
    pub closed spec fn spec_pool(&self) -> LetterPool {
        self.lp
    }

    /// The currency counter.
    pub closed spec fn spec_currency(&self) -> u32 {
        self.currency
    }

    /// The words-found counter.
    pub closed spec fn spec_found(&self) -> u32 {
        self.found
    }

    /// A game is well-formed when its pool is.
    pub open spec fn wf(&self) -> bool {
        self.spec_pool().wf()
    }

    /// Constructor for the main structure of the game: empty word, fresh
    /// pool, starting currency, nothing found yet. The word source that
    /// feeds `set_word` lives with the caller.
    pub fn new() -> (g: Game)
        ensures
            g.spec_word() == Seq::<char>::empty(),
            g.spec_pool().spec_available() == alphabet(),
            g.spec_pool().spec_bought() == Seq::<char>::empty(),
            g.spec_currency() == STARTING_CURRENCY,
            g.spec_found() == 0,
            g.wf(),
    {
        Game {
            word: String::new(),
            lp: LetterPool::new(),
            currency: STARTING_CURRENCY,
            found: 0,
        }
    }

    /// Installs the word fetched for the next round. The pool and the
    /// counters persist across words.
    pub fn set_word(&mut self, word: String)
        ensures
            final(self).spec_word() == word@,
            final(self).spec_pool() == old(self).spec_pool(),
            final(self).spec_currency() == old(self).spec_currency(),
            final(self).spec_found() == old(self).spec_found(),
    {
        self.word = word;
    }

    /// Displays a word on the terminal depending on the letters that have
    /// been bought by the player. A `-` character is displayed as is.
    pub fn display_word(&self) -> (r: String)
        ensures
            r@ == masked_word(self.spec_word(), self.spec_pool().spec_bought()),
    {
        render_masked(self.word.as_str(), self.lp.bought())
    }

    /// The full frame shown to the player: the clear-screen control
    /// sequence, the two counters, the masked word, the word itself, and
    /// the two pool views, each on its own line.
    pub open spec fn spec_screen(&self) -> Seq<char> {
        "\u{1b}[2J\u{1b}[1;1H"@ + "Words found   : "@ + decimal(self.spec_found() as int)
            + "\n"@ + "Currency      : "@ + decimal(self.spec_currency() as int) + " / "@
            + decimal(MAX_CURRENCY as int) + " (Win the game by getting 20 or more)\n"@
            + "\n"@ + "Word to find  : "@
            + masked_word(self.spec_word(), self.spec_pool().spec_bought()) + "\n"@
            + "Word to find  : "@ + self.spec_word() + "\n"@ + "\n"@
            + "Bought        : "@ + pool_display(self.spec_pool().spec_bought()) + "\n"@
            + "Available     : "@ + pool_display(self.spec_pool().spec_available()) + "\n"@
    }

    /// Renders the game screen for the player.
    pub fn display_game(&self) -> (r: String)
        ensures
            r@ == self.spec_screen(),
    {
        let mut s = String::from_str("\u{1b}[2J\u{1b}[1;1H");
        s.append("Words found   : ");
        let found = render_u32(self.found);
        s.append(found.as_str());
        s.append("\n");
        s.append("Currency      : ");
        let currency = render_u32(self.currency);
        s.append(currency.as_str());
        s.append(" / ");
        let max = render_u32(MAX_CURRENCY);
        s.append(max.as_str());
        s.append(" (Win the game by getting 20 or more)\n");
        s.append("\n");
        s.append("Word to find  : ");
        let masked = self.display_word();
        s.append(masked.as_str());
        s.append("\n");
        s.append("Word to find  : ");
        s.append(self.word.as_str());
        s.append("\n");
        s.append("\n");
        s.append("Bought        : ");
        let bought = LetterPool::display_letter_pool(self.lp.bought());
        s.append(bought.as_str());
        s.append("\n");
        s.append("Available     : ");
        let available = LetterPool::display_letter_pool(self.lp.available());
        s.append(available.as_str());
        s.append("\n");
        proof {
            assert(s@ =~= self.spec_screen());
        }
        s
    }
}

} // verus!
