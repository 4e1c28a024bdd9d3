use vstd::prelude::*;
use crate::screens::{spec_level_selection, update_level_selection};

verus! {

/// The screen the game is on.
#[derive(Clone, Copy, PartialEq, Eq, Structural, Debug)]
pub enum GameState {
    Welcome,
    LevelSelect,
    Playing,
    Success,
}

/// The maze files, one per level.
pub const LEVELS: [&'static str; 3] = ["levels/level1.txt", "levels/level2.txt", "levels/level3.txt"];

/// How many levels there are.
pub const LEVEL_COUNT: usize = 3;

/// The character of decimal digit `d`.
pub open spec fn digit_char(d: nat) -> char {
    if d == 0 {
        '0'
    } else if d == 1 {
        '1'
    } else if d == 2 {
        '2'
    } else if d == 3 {
        '3'
    } else if d == 4 {
        '4'
    } else if d == 5 {
        '5'
    } else if d == 6 {
        '6'
    } else if d == 7 {
        '7'
    } else if d == 8 {
        '8'
    } else {
        '9'
    }
}

/// The decimal representation of `n`, most significant digit first,
/// without leading zeros (`"0"` for zero).
pub open spec fn spec_decimal(n: nat) -> Seq<char>
    decreases n,
{
    if n < 10 {
        seq![digit_char(n)]
    } else {
        spec_decimal(n / 10) + seq![digit_char(n % 10)]
    }
}

/// The one-character string of decimal digit `d`.
fn digit_str(d: usize) -> (s: &'static str)
    requires
        d < 10,
    ensures
        s@ == seq![digit_char(d as nat)],
{
    match d {
        0 => {
            proof {
                reveal_strlit("0");
            }
            "0"
        },
        1 => {
            proof {
                reveal_strlit("1");
            }
            "1"
        },
        2 => {
            proof {
                reveal_strlit("2");
            }
            "2"
        },
        3 => {
            proof {
                reveal_strlit("3");
            }
            "3"
        },
        4 => {
            proof {
                reveal_strlit("4");
            }
            "4"
        },
        5 => {
            proof {
                reveal_strlit("5");
            }
            "5"
        },
        6 => {
            proof {
                reveal_strlit("6");
            }
            "6"
        },
        7 => {
            proof {
                reveal_strlit("7");
            }
            "7"
        },
        8 => {
            proof {
                reveal_strlit("8");
            }
            "8"
        },
        _ => {
            proof {
                reveal_strlit("9");
            }
            "9"
        },
    }
}

/// `n` written in decimal, as `format!("{}", n)` writes it.
pub fn decimal(n: usize) -> (s: String)
    ensures
        s@ == spec_decimal(n as nat),
    decreases n,
{
    if n < 10 {
        String::from_str(digit_str(n))
    } else {
        let mut s = decimal(n / 10);
        s.append(digit_str(n % 10));
        s
    }
}

/// `10` to the power `k`.
pub open spec fn pow10(k: nat) -> nat
    decreases k,
{
    if k == 0 {
        1
    } else {
        10 * pow10((k - 1) as nat)
    }
}

/// A number below `10^k` has at most `k` decimal digits.
pub proof fn lemma_decimal_len_bound(n: nat, k: nat)
    requires
        n < pow10(k),
        k >= 1,
    ensures
        spec_decimal(n).len() <= k,
    decreases n,
{
    if n >= 10 {
        assert(k >= 2) by {
            if k == 1 {
                assert(pow10(1) == 10) by {
                    reveal_with_fuel(pow10, 2);
                }
            }
        }
        let p = pow10((k - 1) as nat);
        assert(n / 10 < p) by (nonlinear_arith)
            requires
                n < 10 * p,
        ;
        lemma_decimal_len_bound(n / 10, (k - 1) as nat);
    }
}

/// A `usize` (or one more) has at most 20 decimal digits.
pub proof fn lemma_decimal_len(n: nat)
    requires
        n <= usize::MAX + 1,
    ensures
        1 <= spec_decimal(n).len() <= 20,
{
    assert(usize::MAX + 1 < pow10(20)) by {
        reveal_with_fuel(pow10, 21);
    }
    lemma_decimal_len_bound(n, 20);
}

/// The name shown for level `index` (counting from 0).
pub open spec fn spec_level_name(index: nat) -> Seq<char> {
    if index == 0 {
        "Fácil"@
    } else if index == 1 {
        "Intermedio"@
    } else if index == 2 {
        "Difícil"@
    } else {
        "NIVEL "@ + spec_decimal(index + 1)
    }
}

/// The name of level `index`: the three levels have names, any other is
/// "NIVEL" and its number counting from 1.
pub fn level_name(index: usize) -> (name: String)
    requires
        index < usize::MAX,
    ensures
        name@ == spec_level_name(index as nat),
{
    match index {
        0 => String::from_str("Fácil"),
        1 => String::from_str("Intermedio"),
        2 => String::from_str("Difícil"),
        _ => {
            let mut name = String::from_str("NIVEL ");
            let number = decimal(index + 1);
            name.append(number.as_str());
            name
        },
    }
}

/// Which view of the maze is shown while playing.
#[derive(Clone, Copy, PartialEq, Eq, Structural, Debug)]
pub enum ViewMode {
    View3D,
    View2D,
}

/// The other view.
pub open spec fn other_view(mode: ViewMode) -> ViewMode {
    match mode {
        ViewMode::View3D => ViewMode::View2D,
        ViewMode::View2D => ViewMode::View3D,
    }
}

/// What the game decides from frame to frame: the screen, the chosen level,
/// the view, whether walls are textured, and whether the mouse button was
/// down in the previous frame.
pub struct Session {
    pub state: GameState,
    pub selected_level: usize,
    pub view_mode: ViewMode,
    pub textures_enabled: bool,
    pub mouse_was_down: bool,
}

/// The level played after level `level` is completed: the next one,
/// wrapping from the last to the first.
pub open spec fn next_level(level: nat) -> nat {
    (level + 1) % (LEVEL_COUNT as nat)
}

impl Session {
    /// The chosen level is one of the levels.
    pub open spec fn wf(self) -> bool {
        self.selected_level < LEVEL_COUNT
    }

    /// The start of a game: the welcome screen, the first level chosen, the
    /// 3D view with textures.
    pub fn new() -> (s: Session)
        ensures
            s.wf(),
            s.state == GameState::Welcome,
            s.selected_level == 0,
            s.view_mode == ViewMode::View3D,
            s.textures_enabled,
            !s.mouse_was_down,
    {
        Session {
            state: GameState::Welcome,
            selected_level: 0,
            view_mode: ViewMode::View3D,
            textures_enabled: true,
            mouse_was_down: false,
        }
    }

    /// Moves the level choice on the level selection screen (see
    /// `screens::update_level_selection`).
    pub fn select_level(&mut self, key_pressed: [bool; 3], up_pressed: bool, down_pressed: bool)
        requires
            old(self).wf(),
        ensures
            final(self).wf(),
            final(self).selected_level == spec_level_selection(
                old(self).selected_level as nat,
                key_pressed@,
                up_pressed,
                down_pressed,
            ),
            final(self).state == old(self).state,
            final(self).view_mode == old(self).view_mode,
            final(self).textures_enabled == old(self).textures_enabled,
            final(self).mouse_was_down == old(self).mouse_was_down,
    {
        let mut selected = self.selected_level;
        update_level_selection(key_pressed, up_pressed, down_pressed, &mut selected);
        self.selected_level = selected;
    }

    /// The screen change of one frame: the welcome screen and a completed
    /// level go on when confirmed, the level selection starts the chosen
    /// level when confirmed, and play ends when the goal is reached.
    /// Returns the level to load when a level starts.
    pub fn advance(&mut self, confirmed: bool, reached_goal: bool) -> (load: Option<usize>)
        requires
            old(self).wf(),
        ensures
            final(self).wf(),
            final(self).textures_enabled == old(self).textures_enabled,
            final(self).mouse_was_down == old(self).mouse_was_down,
            match old(self).state {
                GameState::Welcome => {
                    &&& load is None
                    &&& final(self).state == (if confirmed {
                        GameState::LevelSelect
                    } else {
                        GameState::Welcome
                    })
                    &&& final(self).selected_level == old(self).selected_level
                    &&& final(self).view_mode == old(self).view_mode
                },
                GameState::LevelSelect => if confirmed {
                    &&& load == Some(old(self).selected_level)
                    &&& final(self).state == GameState::Playing
                    &&& final(self).selected_level == old(self).selected_level
                    &&& final(self).view_mode == ViewMode::View3D
                } else {
                    &&& load is None
                    &&& *final(self) == *old(self)
                },
                GameState::Playing => {
                    &&& load is None
                    &&& final(self).state == (if reached_goal {
                        GameState::Success
                    } else {
                        GameState::Playing
                    })
                    &&& final(self).selected_level == old(self).selected_level
                    &&& final(self).view_mode == old(self).view_mode
                },
                GameState::Success => if confirmed {
                    &&& final(self).selected_level == next_level(old(self).selected_level as nat)
                    &&& load == Some(final(self).selected_level)
                    &&& final(self).state == GameState::Playing
                    &&& final(self).view_mode == ViewMode::View3D
                } else {
                    &&& load is None
                    &&& *final(self) == *old(self)
                },
            },
    {
        match self.state {
            GameState::Welcome => {
                if confirmed {
                    self.state = GameState::LevelSelect;
                }
                None
            },
            GameState::LevelSelect => {
                if confirmed {
                    self.view_mode = ViewMode::View3D;
                    self.state = GameState::Playing;
                    Some(self.selected_level)
                } else {
                    None
                }
            },
            GameState::Playing => {
                if reached_goal {
                    self.state = GameState::Success;
                }
                None
            },
            GameState::Success => {
                if confirmed {
                    self.selected_level = (self.selected_level + 1) % LEVEL_COUNT;
                    self.view_mode = ViewMode::View3D;
                    self.state = GameState::Playing;
                    Some(self.selected_level)
                } else {
                    None
                }
            },
        }
    }

    /// Switches between the 2D and 3D views when asked by key or button,
    /// or by a click that starts on the view button, but only once the last
    /// switch is `cooled_down` (250 ms old). Remembers whether the mouse
    /// button is down for the next frame. Returns whether the view switched.
    pub fn toggle_view(
        &mut self,
        toggle_requested: bool,
        on_button_down: bool,
        mouse_down: bool,
        cooled_down: bool,
    ) -> (switched: bool)
        requires
            old(self).wf(),
        ensures
            final(self).wf(),
            switched == (cooled_down && (toggle_requested || (on_button_down
                && !old(self).mouse_was_down))),
            final(self).view_mode == (if switched {
                other_view(old(self).view_mode)
            } else {
                old(self).view_mode
            }),
            final(self).mouse_was_down == mouse_down,
            final(self).state == old(self).state,
            final(self).selected_level == old(self).selected_level,
            final(self).textures_enabled == old(self).textures_enabled,
    {
        let clicked_button = on_button_down && !self.mouse_was_down;
        let key_toggle = toggle_requested && cooled_down;
        let switched = (key_toggle || clicked_button) && cooled_down;
        if switched {
            self.view_mode = match self.view_mode {
                ViewMode::View3D => ViewMode::View2D,
                ViewMode::View2D => ViewMode::View3D,
            };
        }
        self.mouse_was_down = mouse_down;
        switched
    }

    /// Turns wall textures on or off when asked.
    pub fn toggle_textures(&mut self, requested: bool)
        requires
            old(self).wf(),
        ensures
            final(self).wf(),
            final(self).textures_enabled == (old(self).textures_enabled != requested),
            final(self).state == old(self).state,
            final(self).selected_level == old(self).selected_level,
            final(self).view_mode == old(self).view_mode,
            final(self).mouse_was_down == old(self).mouse_was_down,
    {
        if requested {
            self.textures_enabled = !self.textures_enabled;
        }
    }
}

/// Counts the frames drawn in the current second and keeps the count of
/// the last complete second.
pub struct FpsCounter {
    pub frames: u32,
    pub fps: u32,
}

impl FpsCounter {
    /// No frames counted yet.
    pub fn new() -> (c: FpsCounter)
        ensures
            c.frames == 0,
            c.fps == 0,
    {
        FpsCounter { frames: 0, fps: 0 }
    }

    /// Counts a frame; when a second has passed, that second's count
    /// becomes the frame rate and counting starts again. Returns whether
    /// the second's timer restarts.
    pub fn tick(&mut self, second_elapsed: bool) -> (restart: bool)
        requires
            old(self).frames < u32::MAX,
        ensures
            restart == second_elapsed,
            second_elapsed ==> final(self).fps == old(self).frames + 1 && final(self).frames == 0,
            !second_elapsed ==> final(self).fps == old(self).fps && final(self).frames == old(
                self,
            ).frames + 1,
    {
        self.frames = self.frames + 1;
        if second_elapsed {
            self.fps = self.frames;
            self.frames = 0;
        }
        second_elapsed
    }
}

/// Completing every level in turn comes back to the level started with.
pub proof fn lemma_levels_cycle(level: nat)
    requires
        level < LEVEL_COUNT,
    ensures
        next_level(next_level(next_level(level))) == level,
        next_level(level) < LEVEL_COUNT,
{
}

/// Switching the view twice shows the view shown before.
pub proof fn lemma_view_toggle_involutive(mode: ViewMode)
    ensures
        other_view(other_view(mode)) == mode,
        other_view(mode) != mode,
{
}

/// Decimal representations of different numbers differ.
pub proof fn lemma_decimal_injective(m: nat, n: nat)
    requires
        spec_decimal(m) == spec_decimal(n),
    ensures
        m == n,
    decreases m + n,
{
    if m < 10 && n < 10 {
        assert(spec_decimal(m) == seq![digit_char(m)]);
        assert(spec_decimal(n) == seq![digit_char(n)]);
        assert(seq![digit_char(m)][0] == digit_char(m));
        assert(seq![digit_char(n)][0] == digit_char(n));
        assert(m == n);
    } else if m >= 10 && n >= 10 {
        let a = spec_decimal(m / 10);
        let b = spec_decimal(n / 10);
        lemma_decimal_nonempty(m / 10);
        lemma_decimal_nonempty(n / 10);
        assert(spec_decimal(m).len() == a.len() + 1);
        assert(spec_decimal(n).len() == b.len() + 1);
        assert(a =~= spec_decimal(m).drop_last());
        assert(b =~= spec_decimal(n).drop_last());
        assert(spec_decimal(m).last() == digit_char(m % 10));
        assert(spec_decimal(n).last() == digit_char(n % 10));
        lemma_decimal_injective(m / 10, n / 10);
        assert(m % 10 == n % 10);
        assert(m == 10 * (m / 10) + m % 10);
        assert(n == 10 * (n / 10) + n % 10);
    } else if m < 10 {
        lemma_decimal_nonempty(n / 10);
        assert(spec_decimal(n).len() >= 2);
    } else {
        lemma_decimal_nonempty(m / 10);
        assert(spec_decimal(m).len() >= 2);
    }
}

/// Every number has at least one digit.
pub proof fn lemma_decimal_nonempty(n: nat)
    ensures
        spec_decimal(n).len() >= 1,
    decreases n,
{
    if n >= 10 {
        lemma_decimal_nonempty(n / 10);
    }
}

/// Different levels have different names.
pub proof fn lemma_level_names_distinct(i: nat, j: nat)
    requires
        i != j,
    ensures
        spec_level_name(i) != spec_level_name(j),
{
    reveal_strlit("Fácil");
    reveal_strlit("Intermedio");
    reveal_strlit("Difícil");
    reveal_strlit("NIVEL ");
    if i >= 3 && j >= 3 {
        if spec_level_name(i) == spec_level_name(j) {
            assert(spec_decimal(i + 1) =~= spec_level_name(i).skip(6));
            assert(spec_decimal(j + 1) =~= spec_level_name(j).skip(6));
            lemma_decimal_injective(i + 1, j + 1);
        }
    } else if i >= 3 || j >= 3 {
        let k = if i >= 3 { i } else { j };
        let l = if i >= 3 { j } else { i };
        lemma_decimal_nonempty(k + 1);
        assert(spec_level_name(k)[0] == 'N');
        assert(spec_level_name(l)[0] != 'N');
    } else {
        assert(spec_level_name(i).len() != spec_level_name(j).len());
    }
}

} // verus!
