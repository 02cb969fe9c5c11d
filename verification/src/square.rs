//! Squares of the 8x8 board. A square is modelled by its index, `rank * 8 + file`.

use vstd::prelude::*;

verus! {

/// The file (column) of the square with index `i`.
pub open spec fn file_of(i: nat) -> int {
    (i % 8) as int
}

/// The rank (row) of the square with index `i`.
pub open spec fn rank_of(i: nat) -> int {
    (i / 8) as int
}

/// The index of the square `dx` files and `dy` ranks away from square `i`,
/// if both squares lie on the board.
pub open spec fn shifted(i: nat, dx: int, dy: int) -> Option<nat> {
    let f = file_of(i) + dx;
    let r = rank_of(i) + dy;
    if i < 64 && 0 <= f < 8 && 0 <= r < 8 {
        Some((r * 8 + f) as nat)
    } else {
        None
    }
}

/// The letter of a file: `a` for file 0 up to `h` for file 7.
pub open spec fn file_letter(file: int) -> char {
    if file == 0 {
        'a'
    } else if file == 1 {
        'b'
    } else if file == 2 {
        'c'
    } else if file == 3 {
        'd'
    } else if file == 4 {
        'e'
    } else if file == 5 {
        'f'
    } else if file == 6 {
        'g'
    } else {
        'h'
    }
}

/// The digit of a rank: `1` for rank 0 up to `8` for rank 7.
pub open spec fn rank_digit(rank: int) -> char {
    if rank == 0 {
        '1'
    } else if rank == 1 {
        '2'
    } else if rank == 2 {
        '3'
    } else if rank == 3 {
        '4'
    } else if rank == 4 {
        '5'
    } else if rank == 5 {
        '6'
    } else if rank == 6 {
        '7'
    } else {
        '8'
    }
}

/// The name of the square with index `i`: the letter of its file and the
/// digit of its rank, as in `e3`.
pub open spec fn square_name(i: nat) -> Seq<char> {
    seq![file_letter(file_of(i)), rank_digit(rank_of(i))]
}

/// One of the 64 squares of the board.
#[derive(Debug, Clone, Copy, PartialEq, Eq, Structural, PartialOrd, Ord, Hash)]
pub struct Square {
    file: u8,
    rank: u8,
}

impl View for Square {
    type V = nat;

    closed spec fn view(&self) -> nat {
        (self.rank as nat) * 8 + (self.file as nat)
    }
}

impl Square {
    /// Every square lies on the board: its view is an index below 64.
    #[verifier::type_invariant]
    pub closed spec fn on_board(self) -> bool {
        self.file < 8 && self.rank < 8
    }

    /// What `on_board` means for the view.
    pub proof fn lemma_on_board(self)
        requires
            self.on_board(),
        ensures
            self@ < 64,
    {
    }

    pub fn new(file: u8, rank: u8) -> (r: Option<Square>)
        ensures
            r is Some <==> file < 8 && rank < 8,
            r is Some ==> r.unwrap()@ == rank * 8 + file && r.unwrap().on_board(),
    {
        if file < 8 && rank < 8 {
            Some(Square { file, rank })
        } else {
            None
        }
    }

    /// The square with the given index, for indices below 64.
    pub fn from_index(index: usize) -> (r: Option<Square>)
        ensures
            r is Some <==> index < 64,
            r is Some ==> r.unwrap()@ == index && r.unwrap().on_board(),
    {
        if index < 64 {
            let file: u8 = (index % 8) as u8;
            let rank: u8 = (index / 8) as u8;
            Some(Square { file, rank })
        } else {
            None
        }
    }

    pub fn file(&self) -> (r: u8)
        ensures
            r == file_of(self@),
            r < 8,
    {
        proof {
            use_type_invariant(self);
        }
        self.file
    }

    pub fn rank(&self) -> (r: u8)
        ensures
            r == rank_of(self@),
            r < 8,
    {
        proof {
            use_type_invariant(self);
        }
        self.rank
    }

    pub fn index(&self) -> (r: usize)
        ensures
            r == self@,
            r < 64,
    {
        proof {
            use_type_invariant(self);
        }
        (self.rank * 8 + self.file) as usize
    }

    /// The letter of the square's file.
    pub fn file_char(&self) -> (r: char)
        ensures
            r == file_letter(file_of(self@)),
    {
        match self.file() {
            0 => 'a',
            1 => 'b',
            2 => 'c',
            3 => 'd',
            4 => 'e',
            5 => 'f',
            6 => 'g',
            _ => 'h',
        }
    }

    /// The digit of the square's rank.
    pub fn rank_char(&self) -> (r: char)
        ensures
            r == rank_digit(rank_of(self@)),
    {
        match self.rank() {
            0 => '1',
            1 => '2',
            2 => '3',
            3 => '4',
            4 => '5',
            5 => '6',
            6 => '7',
            _ => '8',
        }
    }

    /// The name of the square, as in `e3`.
    pub fn to_string(&self) -> (r: String)
        ensures
            r@ == square_name(self@),
    {
        let mut name = String::new();
        name.push(self.file_char());
        name.push(self.rank_char());
        assert(name@ =~= square_name(self@));
        name
    }

    /// The square `file` files and `rank` ranks away, unless it is off the board.
    pub fn moved_by(&self, file: i8, rank: i8) -> (r: Option<Square>)
        ensures
            match r {
                Some(s) => shifted(self@, file as int, rank as int) == Some(s@) && s.on_board(),
                None => shifted(self@, file as int, rank as int) is None,
            },
    {
        proof {
            use_type_invariant(self);
        }
        let new_file: i16 = self.file as i16 + file as i16;
        let new_rank: i16 = self.rank as i16 + rank as i16;
        if new_file < 0 || new_file > 7 || new_rank < 0 || new_rank > 7 {
            return None;
        }
        Some(Square { file: new_file as u8, rank: new_rank as u8 })
    }
}

} // verus!
