//! The glyph tables of the two big-text fonts.

use vstd::prelude::*;

verus! {

/// Glyph rows of every character the block font draws, keyed by the upper-case
/// character.
pub const BLOCK_GLYPHS: [(char, [&'static str; 5]); 47] = [
    ('A', [" ██ ", "█  █", "████", "█  █", "█  █"]),
    ('B', ["███ ", "█  █", "███ ", "█  █", "███ "]),
    ('C', [" ███", "█   ", "█   ", "█   ", " ███"]),
    ('D', ["███ ", "█  █", "█  █", "█  █", "███ "]),
    ('E', ["████", "█   ", "███ ", "█   ", "████"]),
    ('F', ["████", "█   ", "███ ", "█   ", "█   "]),
    ('G', [" ███", "█   ", "█ ██", "█  █", " ███"]),
    ('H', ["█  █", "█  █", "████", "█  █", "█  █"]),
    ('I', ["███", " █ ", " █ ", " █ ", "███"]),
    ('J', [" ███", "   █", "   █", "█  █", " ██ "]),
    ('K', ["█  █", "█ █ ", "██  ", "█ █ ", "█  █"]),
    ('L', ["█   ", "█   ", "█   ", "█   ", "████"]),
    ('M', ["█   █", "██ ██", "█ █ █", "█   █", "█   █"]),
    ('N', ["█   █", "██  █", "█ █ █", "█  ██", "█   █"]),
    ('O', [" ██ ", "█  █", "█  █", "█  █", " ██ "]),
    ('P', ["███ ", "█  █", "███ ", "█   ", "█   "]),
    ('Q', [" ██ ", "█  █", "█  █", "█ ██", " ███"]),
    ('R', ["███ ", "█  █", "███ ", "█ █ ", "█  █"]),
    ('S', [" ███", "█   ", " ██ ", "   █", "███ "]),
    ('T', ["████", " █  ", " █  ", " █  ", " █  "]),
    ('U', ["█  █", "█  █", "█  █", "█  █", " ██ "]),
    ('V', ["█  █", "█  █", "█  █", " ██ ", " ██ "]),
    ('W', ["█   █", "█   █", "█ █ █", "█ █ █", " █ █ "]),
    ('X', ["█  █", "█  █", " ██ ", "█  █", "█  █"]),
    ('Y', ["█  █", "█  █", " ██ ", " █  ", " █  "]),
    ('Z', ["████", "  █ ", " █  ", "█   ", "████"]),
    ('0', [" ██ ", "█  █", "█  █", "█  █", " ██ "]),
    ('1', [" █ ", "██ ", " █ ", " █ ", "███"]),
    ('2', [" ██ ", "█  █", "  █ ", " █  ", "████"]),
    ('3', ["████", "   █", " ██ ", "   █", "████"]),
    ('4', ["█  █", "█  █", "████", "   █", "   █"]),
    ('5', ["████", "█   ", "███ ", "   █", "███ "]),
    ('6', [" ██ ", "█   ", "███ ", "█  █", " ██ "]),
    ('7', ["████", "   █", "  █ ", " █  ", "█   "]),
    ('8', [" ██ ", "█  █", " ██ ", "█  █", " ██ "]),
    ('9', [" ██ ", "█  █", " ███", "   █", " ██ "]),
    (' ', ["    ", "    ", "    ", "    ", "    "]),
    ('.', ["  ", "  ", "  ", "  ", "██"]),
    ('!', ["██", "██", "██", "  ", "██"]),
    ('?', [" ██ ", "█  █", "  █ ", "    ", " █  "]),
    ('-', ["    ", "    ", "████", "    ", "    "]),
    (':', ["  ", "██", "  ", "██", "  "]),
    ('\'', ["██", "█ ", "  ", "  ", "  "]),
    ('&', [" █  ", "█ █ ", " ██ ", "█ █ ", " ███"]),
    ('/', ["   █", "  █ ", " █  ", "█   ", "█   "]),
    ('@', [" ██ ", "█  █", "█ ██", "█   ", " ███"]),
    ('+', ["    ", " █  ", "████", " █  ", "    "]),
];

/// Glyph rows of every character the large font draws, keyed by the upper-case
/// character.
pub const LARGE_GLYPHS: [(char, [&'static str; 7]); 43] = [
    (
        'A',
        [
            "  ████  ",
            " ██  ██ ",
            "██    ██",
            "████████",
            "██    ██",
            "██    ██",
            "██    ██",
        ],
    ),
    (
        'B',
        [
            "██████  ",
            "██   ██ ",
            "██   ██ ",
            "██████  ",
            "██   ██ ",
            "██   ██ ",
            "██████  ",
        ],
    ),
    (
        'C',
        [
            " ██████ ",
            "██      ",
            "██      ",
            "██      ",
            "██      ",
            "██      ",
            " ██████ ",
        ],
    ),
    (
        'D',
        [
            "██████  ",
            "██   ██ ",
            "██    ██",
            "██    ██",
            "██    ██",
            "██   ██ ",
            "██████  ",
        ],
    ),
    (
        'E',
        [
            "████████",
            "██      ",
            "██      ",
            "██████  ",
            "██      ",
            "██      ",
            "████████",
        ],
    ),
    (
        'F',
        [
            "████████",
            "██      ",
            "██      ",
            "██████  ",
            "██      ",
            "██      ",
            "██      ",
        ],
    ),
    (
        'G',
        [
            " ██████ ",
            "██      ",
            "██      ",
            "██  ████",
            "██    ██",
            "██    ██",
            " ██████ ",
        ],
    ),
    (
        'H',
        [
            "██    ██",
            "██    ██",
            "██    ██",
            "████████",
            "██    ██",
            "██    ██",
            "██    ██",
        ],
    ),
    (
        'I',
        [
            "██████",
            "  ██  ",
            "  ██  ",
            "  ██  ",
            "  ██  ",
            "  ██  ",
            "██████",
        ],
    ),
    (
        'J',
        [
            "  ██████",
            "      ██",
            "      ██",
            "      ██",
            "██    ██",
            "██    ██",
            " ██████ ",
        ],
    ),
    (
        'K',
        [
            "██   ██ ",
            "██  ██  ",
            "██ ██   ",
            "████    ",
            "██ ██   ",
            "██  ██  ",
            "██   ██ ",
        ],
    ),
    (
        'L',
        [
            "██      ",
            "██      ",
            "██      ",
            "██      ",
            "██      ",
            "██      ",
            "████████",
        ],
    ),
    (
        'M',
        [
            "██    ██",
            "███  ███",
            "████████",
            "██ ██ ██",
            "██    ██",
            "██    ██",
            "██    ██",
        ],
    ),
    (
        'N',
        [
            "██    ██",
            "███   ██",
            "████  ██",
            "██ ██ ██",
            "██  ████",
            "██   ███",
            "██    ██",
        ],
    ),
    (
        'O',
        [
            " ██████ ",
            "██    ██",
            "██    ██",
            "██    ██",
            "██    ██",
            "██    ██",
            " ██████ ",
        ],
    ),
    (
        'P',
        [
            "██████  ",
            "██   ██ ",
            "██   ██ ",
            "██████  ",
            "██      ",
            "██      ",
            "██      ",
        ],
    ),
    (
        'Q',
        [
            " ██████ ",
            "██    ██",
            "██    ██",
            "██    ██",
            "██  ████",
            "██   ██ ",
            " █████ █",
        ],
    ),
    (
        'R',
        [
            "██████  ",
            "██   ██ ",
            "██   ██ ",
            "██████  ",
            "██ ██   ",
            "██  ██  ",
            "██   ██ ",
        ],
    ),
    (
        'S',
        [
            " ██████ ",
            "██      ",
            "██      ",
            " ██████ ",
            "      ██",
            "      ██",
            " ██████ ",
        ],
    ),
    (
        'T',
        [
            "████████",
            "   ██   ",
            "   ██   ",
            "   ██   ",
            "   ██   ",
            "   ██   ",
            "   ██   ",
        ],
    ),
    (
        'U',
        [
            "██    ██",
            "██    ██",
            "██    ██",
            "██    ██",
            "██    ██",
            "██    ██",
            " ██████ ",
        ],
    ),
    (
        'V',
        [
            "██    ██",
            "██    ██",
            "██    ██",
            " ██  ██ ",
            " ██  ██ ",
            "  ████  ",
            "   ██   ",
        ],
    ),
    (
        'W',
        [
            "██    ██",
            "██    ██",
            "██    ██",
            "██ ██ ██",
            "████████",
            "███  ███",
            "██    ██",
        ],
    ),
    (
        'X',
        [
            "██    ██",
            " ██  ██ ",
            "  ████  ",
            "   ██   ",
            "  ████  ",
            " ██  ██ ",
            "██    ██",
        ],
    ),
    (
        'Y',
        [
            "██    ██",
            " ██  ██ ",
            "  ████  ",
            "   ██   ",
            "   ██   ",
            "   ██   ",
            "   ██   ",
        ],
    ),
    (
        'Z',
        [
            "████████",
            "     ██ ",
            "    ██  ",
            "   ██   ",
            "  ██    ",
            " ██     ",
            "████████",
        ],
    ),
    (
        '0',
        [
            " ██████ ",
            "██    ██",
            "██   ███",
            "██  ████",
            "██ ██ ██",
            "███   ██",
            " ██████ ",
        ],
    ),
    (
        '1',
        [
            "   ██   ",
            " ████   ",
            "   ██   ",
            "   ██   ",
            "   ██   ",
            "   ██   ",
            "████████",
        ],
    ),
    (
        '2',
        [
            " ██████ ",
            "██    ██",
            "      ██",
            "  ████  ",
            "██      ",
            "██      ",
            "████████",
        ],
    ),
    (
        '3',
        [
            "████████",
            "      ██",
            "      ██",
            "  ████  ",
            "      ██",
            "      ██",
            "████████",
        ],
    ),
    (
        '4',
        [
            "██    ██",
            "██    ██",
            "██    ██",
            "████████",
            "      ██",
            "      ██",
            "      ██",
        ],
    ),
    (
        '5',
        [
            "████████",
            "██      ",
            "██      ",
            "██████  ",
            "      ██",
            "      ██",
            "██████  ",
        ],
    ),
    (
        '6',
        [
            " ██████ ",
            "██      ",
            "██      ",
            "██████  ",
            "██    ██",
            "██    ██",
            " ██████ ",
        ],
    ),
    (
        '7',
        [
            "████████",
            "      ██",
            "     ██ ",
            "    ██  ",
            "   ██   ",
            "  ██    ",
            " ██     ",
        ],
    ),
    (
        '8',
        [
            " ██████ ",
            "██    ██",
            "██    ██",
            " ██████ ",
            "██    ██",
            "██    ██",
            " ██████ ",
        ],
    ),
    (
        '9',
        [
            " ██████ ",
            "██    ██",
            "██    ██",
            " ███████",
            "      ██",
            "      ██",
            " ██████ ",
        ],
    ),
    (
        ' ',
        [
            "        ",
            "        ",
            "        ",
            "        ",
            "        ",
            "        ",
            "        ",
        ],
    ),
    (
        '.',
        [
            "    ",
            "    ",
            "    ",
            "    ",
            "    ",
            "    ",
            " ██ ",
        ],
    ),
    (
        '!',
        [
            " ██ ",
            " ██ ",
            " ██ ",
            " ██ ",
            " ██ ",
            "    ",
            " ██ ",
        ],
    ),
    (
        '?',
        [
            " ██████ ",
            "██    ██",
            "      ██",
            "    ██  ",
            "   ██   ",
            "        ",
            "   ██   ",
        ],
    ),
    (
        '-',
        [
            "        ",
            "        ",
            "        ",
            "██████  ",
            "        ",
            "        ",
            "        ",
        ],
    ),
    (
        ':',
        [
            "    ",
            "    ",
            " ██ ",
            "    ",
            " ██ ",
            "    ",
            "    ",
        ],
    ),
    (
        '/',
        [
            "      ██",
            "     ██ ",
            "    ██  ",
            "   ██   ",
            "  ██    ",
            " ██     ",
            "██      ",
        ],
    ),
];

} // verus!
