use vstd::prelude::*;

verus! {

/// The size of a flash page in bytes.
pub const PAGE_SIZE: usize = 2048;

/// The number of pages in one flash bank.
pub const BANK_PAGES: usize = 256;

/// A flash bank. For an erase it names the physical bank; for a read or a write
/// `Bank1` is the booted bank and `Bank2` the spare one.
#[derive(Copy, Clone, Debug, PartialEq, Eq, PartialOrd, Ord, Hash, Structural)]
pub enum FlashBank {
    Bank1,
    Bank2,
}

/// Whether a bank is the one that is running or the spare.
#[derive(Copy, Clone, Debug, PartialEq, Eq, PartialOrd, Ord, Hash, Structural)]
pub enum BankStatus {
    Active,
    Spare,
}

/// Why a page could not be stored or read back.
#[derive(Debug, Clone, Copy, PartialEq, Eq, Structural)]
pub enum FlashError {
    CorruptedData,
    Deserialization,
}

impl FlashBank {
    /// The other bank.
    pub fn opposite(&self) -> (r: Self)
        ensures
            r != *self,
    {
        match self {
            FlashBank::Bank1 => FlashBank::Bank2,
            FlashBank::Bank2 => FlashBank::Bank1,
        }
    }
}

/// The absolute page number of page `page` of a bank.
pub open spec fn bank_page(bank: FlashBank, page: int) -> int {
    match bank {
        FlashBank::Bank1 => page,
        FlashBank::Bank2 => page + BANK_PAGES,
    }
}

/// Maps the logical banks of a read or write to the physical bank that was
/// booted.
#[derive(Copy, Clone, Debug, PartialEq, Eq, PartialOrd, Ord, Hash, Structural)]
pub struct BankToFlash {
    pub physical: FlashBank,
}

impl BankToFlash {
    pub fn new(physical: FlashBank) -> (r: Self)
        ensures
            r.physical == physical,
    {
        BankToFlash { physical }
    }

    /// The absolute page number of page `page` of `bank`.
    pub fn physical_bank_page(bank: FlashBank, page: usize) -> (r: usize)
        requires
            page + BANK_PAGES <= usize::MAX,
        ensures
            r == bank_page(bank, page as int),
    {
        match bank {
            FlashBank::Bank1 => page,
            FlashBank::Bank2 => page + BANK_PAGES,
        }
    }

    /// The absolute page number of page `page` of the active or spare bank:
    /// the active bank's pages lie in the bank opposite the booted one.
    pub fn get_physical_page(&self, which: BankStatus, page: usize) -> (r: usize)
        requires
            page + BANK_PAGES <= usize::MAX,
        ensures
            r == bank_page(
                match which {
                    BankStatus::Active => if self.physical == FlashBank::Bank1 { FlashBank::Bank2 } else { FlashBank::Bank1 },
                    BankStatus::Spare => self.physical,
                },
                page as int,
            ),
    {
        let physical_bank = match which {
            BankStatus::Active => self.physical.opposite(),
            BankStatus::Spare => self.physical,
        };
        Self::physical_bank_page(physical_bank, page)
    }
}

/// The page to erase before writing page `page`: in the bank that is running,
/// the second one when booted from it.
pub fn erase_page(fb_mode: bool, page: usize) -> (r: usize)
    requires
        page + BANK_PAGES <= usize::MAX,
    ensures
        r == bank_page(if fb_mode { FlashBank::Bank2 } else { FlashBank::Bank1 }, page as int),
{
    let running_bank = if fb_mode { FlashBank::Bank2 } else { FlashBank::Bank1 };
    BankToFlash::physical_bank_page(running_bank, page)
}

/// The stored image of a page: the payload's length as two big-endian bytes,
/// the payload, and zeros up to the page size.
pub open spec fn page_image(data: Seq<u8>) -> Seq<u8> {
    seq![(data.len() / 256) as u8, (data.len() % 256) as u8] + data
        + Seq::new((PAGE_SIZE - 2 - data.len()) as nat, |i: int| 0u8)
}

/// Lays a payload out as a flash page; a payload longer than the page holds is
/// refused with `CorruptedData`.
pub fn encode_page(serialized: &[u8]) -> (r: Result<Vec<u8>, FlashError>)
    ensures
        serialized@.len() > PAGE_SIZE - 2 <==> r == Err::<Vec<u8>, FlashError>(FlashError::CorruptedData),
        r is Err ==> r == Err::<Vec<u8>, FlashError>(FlashError::CorruptedData),
        r is Ok ==> r->Ok_0@ == page_image(serialized@),
{
    if serialized.len() > PAGE_SIZE - 2 {
        return Err(FlashError::CorruptedData);
    }
    let n = serialized.len();
    let mut data: Vec<u8> = Vec::new();
    data.push((n / 256) as u8);
    data.push((n % 256) as u8);
    let mut i: usize = 0;
    while i < n
        invariant
            n == serialized@.len(),
            n <= PAGE_SIZE - 2,
            i <= n,
            data@ == seq![(n / 256) as u8, (n % 256) as u8] + serialized@.subrange(0, i as int),
        decreases n - i,
    {
        data.push(serialized[i]);
        i = i + 1;
        assert(data@ =~= seq![(n / 256) as u8, (n % 256) as u8] + serialized@.subrange(0, i as int));
    }
    assert(serialized@.subrange(0, n as int) =~= serialized@);
    let ghost head = data@;
    while data.len() < PAGE_SIZE
        invariant
            n == serialized@.len(),
            n <= PAGE_SIZE - 2,
            head.len() == n + 2,
            head.len() <= data@.len() <= PAGE_SIZE,
            data@ == head + Seq::new((data@.len() - head.len()) as nat, |i: int| 0u8),
        decreases PAGE_SIZE - data@.len(),
    {
        data.push(0u8);
        assert(data@ =~= head + Seq::new((data@.len() - head.len()) as nat, |i: int| 0u8));
    }
    assert(data@ =~= page_image(serialized@));
    Ok(data)
}

/// The payload of a stored page: the length in its first two bytes (big-endian)
/// and that many bytes after them; a length that does not fit is
/// `CorruptedData`.
pub fn decode_page(buf: &[u8]) -> (r: Result<Vec<u8>, FlashError>)
    requires
        buf@.len() == PAGE_SIZE,
    ensures
        ({
            let len = buf@[0] as int * 256 + buf@[1] as int;
            &&& len >= PAGE_SIZE - 2 <==> r == Err::<Vec<u8>, FlashError>(FlashError::CorruptedData)
            &&& r is Err ==> r == Err::<Vec<u8>, FlashError>(FlashError::CorruptedData)
            &&& r is Ok ==> r->Ok_0@ == buf@.subrange(2, 2 + len)
        }),
{
    let len: usize = buf[0] as usize * 256 + buf[1] as usize;
    if len >= PAGE_SIZE - 2 {
        return Err(FlashError::CorruptedData);
    }
    let mut out: Vec<u8> = Vec::new();
    let mut i: usize = 0;
    while i < len
        invariant
            buf@.len() == PAGE_SIZE,
            len < PAGE_SIZE - 2,
            i <= len,
            out@ == buf@.subrange(2, 2 + i),
        decreases len - i,
    {
        out.push(buf[2 + i]);
        i = i + 1;
        assert(out@ =~= buf@.subrange(2, 2 + i));
    }
    Ok(out)
}

} // verus!
