use vstd::prelude::*;

verus! {

broadcast use vstd::array::group_array_axioms;

/// Number of addressable words: the whole 16-bit address space.
pub const MEMORY_SIZE: usize = 0x1_0000;

/// Keyboard status register: bit 15 is set when a key is ready.
pub const MR_KBSR: u16 = 0xFE00;

/// Keyboard data register: the most recent key.
pub const MR_KBDR: u16 = 0xFE02;

/// Why a program image cannot be loaded.
#[derive(Debug, Clone, Copy, PartialEq, Eq, Structural)]
pub enum MemoryError {
    /// The image is empty, so it has no origin word.
    EmptyOrigin,
    /// The image runs past the end of the address space.
    LoadProgram,
    /// An object file whose byte count is odd.
    OddByteCount,
}

/// The address space, with the keyboard device behind two of its words.
pub struct Memory {
    pub cells: [u16; MEMORY_SIZE],
    /// A byte that the host keyboard has delivered and that no poll of the
    /// status register has taken yet.
    pub keyboard: Option<u8>,
}

/// The contents of a `Memory`.
pub struct MemoryView {
    pub cells: Seq<u16>,
    pub keyboard: Option<u8>,
}

impl View for Memory {
    type V = MemoryView;

    open spec fn view(&self) -> MemoryView {
        MemoryView { cells: self.cells@, keyboard: self.keyboard }
    }
}

impl MemoryView {
    /// A keyboard poll: a waiting byte moves to the data register and sets
    /// the status register's ready bit; without one the status register
    /// reads zero.
    pub open spec fn poll(self) -> MemoryView {
        match self.keyboard {
            Some(b) => MemoryView {
                cells: self.cells.update(MR_KBSR as int, 0x8000).update(MR_KBDR as int, b as u16),
                keyboard: None,
            },
            None => MemoryView { cells: self.cells.update(MR_KBSR as int, 0), keyboard: None },
        }
    }

    /// The memory once `address` has been read: only a read of the status
    /// register changes anything.
    pub open spec fn after_read(self, address: int) -> MemoryView {
        if address == MR_KBSR as int {
            self.poll()
        } else {
            self
        }
    }

    /// The word that a read of `address` returns.
    pub open spec fn read_value(self, address: int) -> u16 {
        self.after_read(address).cells[address]
    }

    /// The memory after storing `value` at `address`.
    pub open spec fn store(self, address: int, value: u16) -> MemoryView {
        MemoryView { cells: self.cells.update(address, value), keyboard: self.keyboard }
    }

    /// Whether `image` fits: it has an origin word and its body ends at or
    /// before the end of the address space.
    pub open spec fn fits(image: Seq<u16>) -> bool {
        image.len() > 0 && image[0] + image.len() - 1 <= MEMORY_SIZE
    }

    /// The memory after loading `image`: the words after the first one,
    /// placed from the address that the first one gives.
    pub open spec fn load(self, image: Seq<u16>) -> MemoryView {
        let origin = image[0] as int;
        MemoryView {
            cells: Seq::new(
                self.cells.len(),
                |a: int|
                    if origin <= a < origin + image.len() - 1 {
                        image[a - origin + 1]
                    } else {
                        self.cells[a]
                    },
            ),
            keyboard: self.keyboard,
        }
    }
}

/// Loading an image and then reading the addresses it covers gives the
/// image back in order: the stored words are the image's body, and a read
/// of any of them but the keyboard status register (which reads the poll
/// result) returns it.
pub proof fn lemma_load_then_read(m: MemoryView, image: Seq<u16>)
    requires
        m.cells.len() == MEMORY_SIZE,
        MemoryView::fits(image),
    ensures
        m.load(image).cells.subrange(image[0] as int, image[0] + image.len() - 1) == image.subrange(
            1,
            image.len() as int,
        ),
        forall|i: int|
            0 <= i < image.len() - 1 && image[0] + i != MR_KBSR ==> #[trigger] m.load(
                image,
            ).read_value(image[0] + i) == image[i + 1],
{
    assert(m.load(image).cells.subrange(image[0] as int, image[0] + image.len() - 1)
        =~= image.subrange(1, image.len() as int));
}

/// The big-endian word made of bytes `hi` and `lo`.
pub open spec fn be_word(hi: u8, lo: u8) -> u16 {
    (hi * 256 + lo) as u16
}

/// The words of an object file: its bytes taken in pairs, each pair a
/// big-endian word.
pub open spec fn object_words(bytes: Seq<u8>) -> Seq<u16> {
    Seq::new(bytes.len() / 2, |i: int| be_word(bytes[2 * i], bytes[2 * i + 1]))
}

/// Reads an object file: a stream of big-endian 16-bit words, the first of
/// which is the origin. A trailing odd byte is refused.
pub fn words_from_bytes(bytes: &[u8]) -> (r: Result<Vec<u16>, MemoryError>)
    ensures
        bytes@.len() % 2 == 0 ==> r is Ok && r->Ok_0@ == object_words(bytes@),
        bytes@.len() % 2 == 1 ==> r == Err::<Vec<u16>, MemoryError>(MemoryError::OddByteCount),
{
    if bytes.len() % 2 == 1 {
        return Err(MemoryError::OddByteCount);
    }
    let mut words: Vec<u16> = Vec::new();
    let mut i: usize = 0;
    while i < bytes.len() / 2
        invariant
            bytes@.len() % 2 == 0,
            i <= bytes@.len() / 2,
            words@ == object_words(bytes@).take(i as int),
        decreases bytes@.len() / 2 - i,
    {
        let hi = bytes[2 * i];
        let lo = bytes[2 * i + 1];
        let word = (hi as u16) * 256 + (lo as u16);
        words.push(word);
        assert(words@ =~= object_words(bytes@).take(i + 1));
        i = i + 1;
    }
    assert(words@ =~= object_words(bytes@));
    Ok(words)
}

impl Memory {
    /// All words zero and no key waiting.
    pub fn new() -> (m: Self)
        ensures
            m@.cells.len() == MEMORY_SIZE,
            forall|a: int| 0 <= a < MEMORY_SIZE ==> m@.cells[a] == 0,
            m@.keyboard is None,
    {
        Self { cells: [0u16; MEMORY_SIZE], keyboard: None }
    }

    /// Stores `value` at `address`; every address can be written.
    pub fn write(&mut self, address: u16, value: u16) -> (r: Result<(), MemoryError>)
        ensures
            r is Ok,
            final(self)@ == old(self)@.store(address as int, value),
    {
        self.cells[address as usize] = value;
        Ok(())
    }
    /// Reads the word at `address`. A read of the keyboard status register
    /// first polls the keyboard. Addresses past the address space read as
    /// `None`.
    pub fn read(&mut self, address: usize) -> (r: Option<u16>)
        ensures
            address < MEMORY_SIZE ==> r == Some(old(self)@.read_value(address as int))
                && final(self)@ == old(self)@.after_read(address as int),
            address >= MEMORY_SIZE ==> r is None && final(self)@ == old(self)@,
    {
        if address >= MEMORY_SIZE {
            return None;
        }
        if address == MR_KBSR as usize {
            self.handle_keyboard();
        }
        Some(self.cells[address])
    }

    /// Loads a program image: the first word is the origin, and the words
    /// after it are stored from the origin on. An empty image, or one that
    /// runs past the end of the address space, leaves memory unchanged and
    /// is refused.
    pub fn load_program(&mut self, data: &[u16]) -> (r: Result<(), MemoryError>)
        ensures
            data@.len() == 0 ==> r == Err::<(), MemoryError>(MemoryError::EmptyOrigin),
            data@.len() > 0 && !MemoryView::fits(data@) ==> r == Err::<(), MemoryError>(
                MemoryError::LoadProgram,
            ),
            MemoryView::fits(data@) ==> r is Ok,
            r is Ok ==> final(self)@ == old(self)@.load(data@),
            r is Err ==> final(self)@ == old(self)@,
    {
        if data.len() == 0 {
            return Err(MemoryError::EmptyOrigin);
        }
        let origin = data[0] as usize;
        if data.len() - 1 > MEMORY_SIZE - origin {
            return Err(MemoryError::LoadProgram);
        }
        let ghost before = self@;
        let mut i: usize = 1;
        while i < data.len()
            invariant
                1 <= i <= data@.len(),
                origin == data@[0],
                origin + data@.len() - 1 <= MEMORY_SIZE,
                self@.keyboard == before.keyboard,
                self@.cells.len() == MEMORY_SIZE,
                before.cells.len() == MEMORY_SIZE,
                forall|a: int|
                    0 <= a < MEMORY_SIZE ==> self@.cells[a] == if origin <= a < origin + i - 1 {
                        data@[a - origin + 1]
                    } else {
                        before.cells[a]
                    },
            decreases data@.len() - i,
        {
            self.cells[origin + i - 1] = data[i];
            i = i + 1;
        }
        assert(self@.cells =~= before.load(data@).cells);
        Ok(())
    }

    /// Polls the keyboard: a waiting byte moves to the data register and the
    /// status register reports it.
    fn handle_keyboard(&mut self)
        ensures
            final(self)@ == old(self)@.poll(),
    {
        let ghost before = self@;
        match self.keyboard {
            Some(b) => {
                self.cells[MR_KBSR as usize] = 0x8000;
                self.cells[MR_KBDR as usize] = b as u16;
            },
            None => {
                self.cells[MR_KBSR as usize] = 0;
            },
        }
        self.keyboard = None;
        assert(self@.cells =~= before.poll().cells);
    }
}

} // verus!
