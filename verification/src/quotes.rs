//! The sayings about time that the button shows, one picked at random.

use rand::Rng;
use vstd::prelude::*;

verus! {

/// How many sayings there are.
pub const QUOTE_COUNT: usize = 8;

pub const QUOTE_0: &'static str = "“逝者如斯夫，不舍昼夜。” ——孔子《论语》\n【释义】时间如流水奔涌，日夜不停，警示世人莫虚度。";

pub const QUOTE_1: &'static str = "“一寸光阴一寸金，寸金难买寸光阴。” ——《增广贤文》\n【释义】光阴比黄金更珍贵，因其不可复得。";

pub const QUOTE_2: &'static str = "“盛年不重来，一日难再晨。” ——陶渊明《杂诗》\n【释义】青春与良辰皆无二次，当下即是最贵。";

pub const QUOTE_3: &'static str = "“不贵尺之璧，而重寸之阴。” ——《淮南子》\n【释义】宝玉易得，光阴难买，轻物重时方为智者。";

pub const QUOTE_4: &'static str = "“时间就是性命。” ——鲁迅\n【释义】浪费他人时间如谋财害命，浪费自己时间如慢性自杀。";

pub const QUOTE_5: &'static str = "“抛弃时间的人，时间也抛弃他。” ——莎士比亚\n【释义】怠慢时间者，终被时间反噬。";

pub const QUOTE_6: &'static str = "“你热爱生命吗？那么别浪费时间，因为它是生命的材料。” ——富兰克林\n【释义】时间构成生命本质，虚度即浪费生命。";

pub const QUOTE_7: &'static str = "“未来姗姗来迟，现在像箭一样飞逝，过去永远静立不动。” ——席勒\n【释义】唯有抓住当下，方能不悔过去、不惧未来。";

/// The `i`-th saying.
pub open spec fn quote_text(i: int) -> Seq<char> {
    if i == 0 {
        QUOTE_0@
    } else if i == 1 {
        QUOTE_1@
    } else if i == 2 {
        QUOTE_2@
    } else if i == 3 {
        QUOTE_3@
    } else if i == 4 {
        QUOTE_4@
    } else if i == 5 {
        QUOTE_5@
    } else if i == 6 {
        QUOTE_6@
    } else {
        QUOTE_7@
    }
}

/// The `i`-th saying.
pub fn quote(i: usize) -> (s: &'static str)
    requires
        i < QUOTE_COUNT,
    ensures
        s@ == quote_text(i as int),
{
    match i {
        0 => QUOTE_0,
        1 => QUOTE_1,
        2 => QUOTE_2,
        3 => QUOTE_3,
        4 => QUOTE_4,
        5 => QUOTE_5,
        6 => QUOTE_6,
        _ => QUOTE_7,
    }
}

#[verifier::external_type_specification]
#[verifier::external_body]
pub struct ExThreadRng(rand::rngs::ThreadRng);

/// `rand::thread_rng`: the generator of the current thread, seeded by the
/// system. Nothing is stated of it.
#[verifier::external_body]
fn thread_rng() -> rand::rngs::ThreadRng {
    rand::thread_rng()
}

/// `Rng::gen_range` over `low..high`: a random value of that range.
///
/// Which value comes out is left to chance; the source shows that it lies
/// in the range, and that an empty range panics, which `requires` rules out.
#[verifier::external_body]
fn gen_range(rng: &mut rand::rngs::ThreadRng, low: usize, high: usize) -> (r: usize)
    requires
        low < high,
    ensures
        low <= r < high,
{
    rng.gen_range(low..high)
}

/// A saying picked at random, as the button shows it.
pub fn pick_quote() -> (s: &'static str)
    ensures
        exists|i: int| 0 <= i < QUOTE_COUNT && s@ == quote_text(i),
{
    let mut rng = thread_rng();
    let i: usize = gen_range(&mut rng, 0, QUOTE_COUNT);
    quote(i)
}

} // verus!
