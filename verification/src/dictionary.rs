//! The built-in word list of the NewMM word tokenizer.
use vstd::prelude::*;
use crate::text::string_of;
use crate::tokenize::strings_view;
use crate::trie::Trie;

verus! {

/// Common Thai words (pronouns, verbs, nouns, adjectives, function words and
/// number words), separated by single spaces.
pub const THAI_WORDS: &'static str = "\
    กรุงเทพ กลับ กลางคืน กับ กางเกง การ การเมือง กาแฟ \
    กิน กุ้ง ก็ ขนม ขวา ของ ขอบคุณ ขอโทษ ขับ ขาย ขี่ \
    ขึ้น ข้าว ข้าวผัด คน ครับ ครู ความ ความรัก \
    ความสุข คอมพิวเตอร์ คิด คือ คุณ ค่ะ งาน งาม ง่าย \
    จะ จาก จ่าย ฉัน ชอบ ชั่วโมง ชา ช่วย ช้า ช้าง ซื้อ \
    ซ้าย ดอกไม้ ดาว ดิฉัน ดิน ดี ดื่ม ดู ตลาด ตลาดนัด \
    ตอบ ต่ำ ต้นไม้ ต้องการ ถนน ถาม ถึง ถูก ถ้า ทะเล \
    ทาง ทาน ทำ ทำงาน ทำอาหาร ทำไม ที่ ที่ไหน ทุก ท่าน \
    ธุรกิจ นก นม นอน นะ นักเรียน นั่ง นั้น นาที นี้ \
    น้อง น้อย น้ำ บน บริษัท บาง บ้าน ประชาชน ประตู \
    ประเทศ ประเทศไทย ปลา ปิด ปี ผม ผลไม้ ผัก ผัด \
    ผู้ใหญ่ ฝน พบ พรุ่งนี้ พวกเรา พัน พี่ พูด พ่อ ฟัง \
    ฟ้า ภาษา ภาษาไทย ภูเขา มหาวิทยาลัย มัน มา มาก มี \
    ม้า ยัง ยาก ยาว ยืน รถ รถไฟ รอ รองเท้า รัก รัฐบาล \
    รับ ราคา รู้ ร้อง ร้อน ร้อย ร้าน ลง ลม ลูก ล้าน \
    วัฒนธรรม วัด วัน วันนี้ วัว วิทยาศาสตร์ วิ่ง ว่า \
    ศาสนา สนามบิน สนุก สวย สวยงาม สวัสดี สอง สังคม \
    สัปดาห์ สั้น สาม สิบ สี่ สุข สูง ส่ง หก หนังสือ \
    หนาว หนึ่ง หน้า หน้าต่าง หมอ หมา หมื่น หมู หรือ \
    หลัง หา หิว ห้อง ห้า อยาก อยู่ อย่างไร อร่อย ออก \
    อะไร อาหาร อิ่ม อ่าน เก่า เก้า เก้าอี้ เขา เขียน \
    เข้า เครื่องบิน เงิน เจอ เจ็ด เช้า เดิน เดือน \
    เด็ก เท่าไร เธอ เปิด เป็น เพราะ เพลง เพื่อน เมือง \
    เมื่อวาน เย็น เรา เรียน เร็ว เล็ก เล่น เวลา \
    เศรษฐกิจ เสื้อ เหนื่อย เห็น แต่ แปด แพง แมว แม่ \
    แม่น้ำ และ แล้ว แสน โต๊ะ โทรศัพท์ โรงพยาบาล \
    โรงเรียน ใกล้ ใคร ใช่ ใช้ ใต้ ใน ใหญ่ ใหม่ ให้ \
    ไกล ไก่ ได้ ไทย ไป ไฟ ไม่ ไหม";

/// The words completed so far, and the word under way, after reading `s`
/// from the left with spaces as separators.
pub open spec fn split_state(s: Seq<char>) -> (Set<Seq<char>>, Seq<char>)
    decreases s.len(),
{
    if s.len() == 0 {
        (Set::empty(), Seq::empty())
    } else {
        let (done, cur) = split_state(s.drop_last());
        if s.last() == ' ' {
            (if cur.len() > 0 {
                done.insert(cur)
            } else {
                done
            }, Seq::empty())
        } else {
            (done, cur.push(s.last()))
        }
    }
}

/// The non-empty space-separated words of `s`.
pub open spec fn space_separated(s: Seq<char>) -> Set<Seq<char>> {
    let (done, cur) = split_state(s);
    if cur.len() > 0 {
        done.insert(cur)
    } else {
        done
    }
}

/// The words of the built-in list.
pub open spec fn default_dictionary() -> Set<Seq<char>> {
    space_separated(THAI_WORDS@)
}

/// A prefix tree of the space-separated words of `s`.
pub fn trie_of_words(s: &str) -> (t: Trie)
    ensures
        t.wf(),
        t@ == space_separated(s@),
{
    let v = crate::text::str_chars(s);
    let mut t = Trie::new();
    let mut cur: Vec<char> = Vec::new();
    let mut i: usize = 0;
    while i < v.len()
        invariant
            i <= v@.len(),
            t.wf(),
            (t@, cur@) == split_state(v@.take(i as int)),
        decreases v.len() - i,
    {
        assert(v@.take(i + 1).drop_last() =~= v@.take(i as int));
        if v[i] == ' ' {
            if cur.len() > 0 {
                t.add(&cur);
            }
            cur = Vec::new();
        } else {
            cur.push(v[i]);
        }
        i = i + 1;
    }
    assert(v@.take(v@.len() as int) =~= v@);
    if cur.len() > 0 {
        t.add(&cur);
    }
    t
}

/// The words of the built-in list, one string each.
pub fn builtin_words() -> (r: Vec<String>)
    ensures
        strings_view(r@).to_set() == default_dictionary(),
{
    let v = crate::text::str_chars(THAI_WORDS);
    let mut done: Vec<String> = Vec::new();
    let mut cur: Vec<char> = Vec::new();
    let mut i: usize = 0;
    while i < v.len()
        invariant
            i <= v@.len(),
            v@ == THAI_WORDS@,
            (strings_view(done@).to_set(), cur@) == split_state(v@.take(i as int)),
        decreases v.len() - i,
    {
        assert(v@.take(i + 1).drop_last() =~= v@.take(i as int));
        if v[i] == ' ' {
            if cur.len() > 0 {
                push_word(&mut done, &cur);
            }
            cur = Vec::new();
        } else {
            cur.push(v[i]);
        }
        i = i + 1;
    }
    assert(v@.take(v@.len() as int) =~= v@);
    if cur.len() > 0 {
        push_word(&mut done, &cur);
    }
    done
}

fn push_word(done: &mut Vec<String>, w: &Vec<char>)
    ensures
        strings_view(final(done)@).to_set() == strings_view(old(done)@).to_set().insert(w@),
{
    let s = string_of(w);
    let ghost prev = strings_view(done@);
    done.push(s);
    proof {
        assert(strings_view(done@) =~= prev.push(w@));
        Seq::lemma_to_set_insert_commutes(prev, w@);
        assert(prev.push(w@) =~= prev + seq![w@]);
    }
}

/// The prefix tree of the built-in word list.
pub fn default_trie() -> (t: Trie)
    ensures
        t.wf(),
        t@ == default_dictionary(),
{
    trie_of_words(THAI_WORDS)
}

} // verus!
