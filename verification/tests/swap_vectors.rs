use hydra_math::error::MathError;
use hydra_math::swap::{Direction, PoolConfig, SwapResult};

fn pool(c: (u64, u8, u64, u8, u8, u64, u8, u64, u64)) -> PoolConfig {
    PoolConfig {
        reserve_x: c.0,
        decimals_x: c.1,
        reserve_y: c.2,
        decimals_y: c.3,
        compensation_parameter: c.4,
        oracle_price: c.5,
        oracle_exponent: c.6,
        fee_numerator: c.7,
        fee_denominator: c.8,
    }
}

fn record(r: (u128, u64, u64, u64, u64, u64)) -> SwapResult {
    SwapResult { k: r.0, x_new: r.1, y_new: r.2, delta_x: r.3, delta_y: r.4, fee_collected: r.5 }
}

#[test]
fn swaps_give_the_expected_results() {
    let rows: Vec<(
        (u64, u8, u64, u8, u8, u64, u8, u64, u64),
        bool,
        u64,
        Result<(u128, u64, u64, u64, u64, u64), MathError>,
    )> = vec![
        ((6763075417032525688, 0, 193, 6, 0, 0, 14, 0, 10000), false, 313270, Ok((1305273555487277457784, 4164043461229164, 313463, 6758911373571296524, 313270, 0))),
        ((484594823, 0, 5757560957745111947, 9, 0, 11, 0, 0, 1), true, 391053, Ok((2790084233230203003071650381, 484985876, 5752918530827901889, 391053, 4642426917210058, 0))),
        ((73493713943, 6, 3223341138, 12, 0, 43858, 12, 6, 1000), true, 198, Ok((236895311536876087134, 73493714141, 3223341129, 198, 9, 1))),
        ((1804626141, 12, 819038744771, 15, 100, 45, 2, 17, 1000000000), false, 1, Ok((1478058729305573658711, 1804626141, 819038744772, 0, 1, 0))),
        ((635594180, 2, 3020480346, 0, 0, 23761, 2, 17, 10000), true, 16032293799242514499, Err(MathError::InsufficientLiquidity)),
        ((551522268384304, 18, 1198007996, 9, 125, 2172184270110415, 12, 0, 1), true, 482592821, Ok((660728087496454192894784, 551522750977125, 1198006948, 482592821, 1048, 0))),
        ((1046932, 6, 296922, 9, 100, 283611543, 12, 1, 1), false, 6923737550941766077, Ok((310857143304, 1046932, 6923737550942062999, 0, 6923737550941766077, 6923737550941766077))),
        ((3530876127, 6, 731521, 9, 150, 269331, 12, 3, 10000), true, 2781392219138176929, Err(MathError::InsufficientLiquidity)),
        ((834467, 2, 353648868955093, 9, 125, 2119, 2, 28, 1000000000), true, 1028561230711, Err(MathError::InsufficientLiquidity)),
        ((3070984147085882476, 9, 215, 0, 100, 333837619, 2, 0, 10000), true, 95579, Err(MathError::InsufficientLiquidity)),
        ((3525244132, 0, 128, 15, 125, 1, 12, 1, 1), false, 859682795098, Ok((451231248896, 3525244132, 859682795226, 0, 859682795098, 859682795098))),
        ((80308659686, 12, 213, 6, 125, 0, 2, 8, 1000), true, 818886, Ok((17105744513118, 80309478572, 212, 818886, 1, 6551))),
        ((203, 18, 3455069858, 0, 0, 615925597, 12, 0, 1), false, 1, Ok((701379181174, 202, 3455069859, 1, 1, 0))),
        ((516215, 0, 2074524846, 9, 125, 405890974, 14, 0, 0), true, 1, Err(MathError::DivideByZero)),
        ((94719105256634, 0, 133027901020892, 9, 0, 1, 8, 0, 0), false, 690479583329, Err(MathError::DivideByZero)),
        ((127, 6, 3042, 6, 125, 24, 0, 5, 10000), true, 0, Ok((386334, 127, 3042, 0, 0, 0))),
        ((235206060500871399, 2, 1771148451, 6, 0, 348290959, 2, 3, 1000), true, 0, Ok((416584849721930662489052949, 235206060500871399, 1771148451, 0, 0, 0))),
        ((693176, 12, 151, 6, 100, 274, 8, 0, 0), false, 772615, Err(MathError::DivideByZero)),
        ((60, 6, 211, 12, 100, 703, 8, 17, 1000000000), false, 242617, Err(MathError::InsufficientLiquidity)),
        ((112819724584885, 12, 494269455942, 12, 0, 0, 14, 10, 1000), false, 219404, Ok((55763343890097390746636670, 112819675005528, 494269675346, 49579357, 219404, 2194))),
        ((579766, 0, 75, 0, 0, 0, 2, 12, 10000), true, 6118076593403567859, Err(MathError::InsufficientLiquidity)),
        ((535695344011355, 6, 646722029286, 15, 100, 182, 2, 22, 1000000000), false, 690171772, Ok((346445979958085373026542530, 535695344011355, 647412201058, 0, 690171772, 15))),
        ((887011718050, 6, 3076817542481585761, 9, 100, 6937, 0, 2, 10000), false, 258638, Ok((2729173214482970246353026686050, 887011718050, 3076817542481844399, 0, 258638, 51))),
        ((125200143, 12, 163025, 15, 100, 0, 2, 4, 1000), false, 0, Ok((20410753312575, 125200143, 163025, 0, 0, 0))),
        ((4378695725517263958, 6, 273705386644640, 6, 100, 0, 0, 22, 1000000000), true, 0, Ok((1198472606551935193785726825885120, 4378695725517263958, 273705386644640, 0, 0, 0))),
        ((580610, 0, 19, 15, 150, 173704153, 14, 23, 10000), true, 157, Err(MathError::InsufficientLiquidity)),
        ((848862286228, 12, 4632285065881041112, 9, 125, 769, 0, 1, 1), false, 96, Ok((3932172091483602157413179405536, 848862286228, 4632285065881041208, 0, 96, 96))),
        ((5384096986724903152, 18, 1085729666887, 15, 0, 0, 0, 0, 1000), true, 14784234323729656470, Err(MathError::Overflow)),
        ((1799495960, 18, 1353959645, 15, 0, 871286741, 2, 29, 1000), false, 192608064, Ok((2436444911180534200, 1581098799, 1546567709, 218397161, 192608064, 5585633))),
        ((839038935704, 0, 520482637680, 9, 125, 392, 8, 9, 1000), true, 982104, Ok((436705198371437847726720, 839039917808, 516667502620, 982104, 3815135060, 8838))),
        ((792322, 12, 5, 9, 150, 869, 2, 5, 1000000000), false, 982339, Err(MathError::InsufficientLiquidity)),
        ((1265420967, 9, 1055802805765, 9, 100, 1, 2, 29, 1000), true, 0, Ok((1336035007432459474755, 1265420967, 1055802805765, 0, 0, 0))),
        ((146, 6, 101120229139, 12, 0, 90038560192, 8, 12, 10000), true, 64284675124, Ok((14763553454294, 64284675270, 229, 64284675124, 101120228910, 77141610))),
        ((2260410127, 9, 370412, 15, 150, 165, 12, 18, 1000000000), false, 729762480054, Err(MathError::InsufficientLiquidity)),
        ((767967938499, 9, 313811, 12, 100, 0, 0, 16, 1000000000), false, 585694, Ok((240996786748309689, 267921564358, 899505, 500046374141, 585694, 0))),
        ((1162757311, 18, 83, 15, 150, 3569102477, 14, 23, 10000), false, 667190572230, Err(MathError::InsufficientLiquidity)),
        ((67176672647, 9, 195, 15, 125, 385, 8, 0, 0), true, 8374972988089698893, Err(MathError::DivideByZero)),
        ((233142079208, 2, 224965394, 0, 125, 339774421, 8, 3, 10000), false, 3910294526423917053, Err(MathError::InsufficientLiquidity)),
        ((1096064876541561, 18, 604480431348, 15, 125, 71, 2, 26, 10000), true, 424290792174, Ok((662549769357235159729254228, 1096489167333735, 604228946675, 424290792174, 251484673, 1103156059))),
        ((8695613304655018959, 2, 553415592386, 12, 0, 0, 14, 0, 0), true, 1, Err(MathError::DivideByZero)),
        ((1562035712281016508, 6, 165987, 15, 100, 47836212, 12, 6, 10000), false, 6503167211774545151, Ok((259277621774389087113396, 1561899847315131512, 6503167211774711138, 135864965884996, 6503167211774545151, 3901900327064727))),
        ((642464368322181, 12, 4756759260904192968, 0, 125, 0, 2, 16, 10000), true, 813929174, Ok((3056048333817496899173538018623208, 642465182251355, 4756753244281674307, 813929174, 6016622518661, 1302286))),
        ((80, 0, 38, 12, 100, 47, 14, 0, 1), false, 186, Err(MathError::DivideByZero)),
        ((3255312601, 2, 1029860552345, 15, 0, 730, 8, 22, 1000000000), true, 558041015234, Ok((3352518033321498599345, 561296327835, 5972813183, 558041015234, 1023887739162, 12276))),
        ((378151, 6, 909873586132870, 0, 0, 18446744073709551615, 14, 20, 1000), false, 901128, Ok((344069606469730923370, 378150, 909873587033998, 1, 901128, 18022))),
        ((238, 2, 1925097663703175935, 12, 125, 1, 2, 0, 1), true, 0, Ok((458173243961355872530, 238, 1925097663703175935, 0, 0, 0))),
        ((234639707494954, 2, 593423288332, 9, 100, 328, 12, 1, 10000), true, 453070, Ok((139240666794914228977076728, 234639707948024, 593423287108, 453070, 1224, 45))),
        ((89834585381346, 12, 2589068344254188919, 6, 100, 0, 12, 0, 0), true, 790772, Err(MathError::DivideByZero)),
        ((1069264976434993, 12, 37, 6, 125, 628, 12, 0, 0), true, 5676933791114085888, Err(MathError::DivideByZero)),
        ((9051043886296856953, 2, 494654985480, 15, 125, 920130421, 8, 0, 0), true, 1, Err(MathError::DivideByZero)),
        ((237002, 0, 4930650635517045329, 0, 100, 20804257497898, 0, 6, 1000000000), true, 720183788, Ok((1168574061918810777063658, 720420790, 1622056573316579, 720183788, 4929028578943728750, 4))),
        ((116, 9, 825733222198, 15, 0, 925390680049482624, 14, 1, 1000000000), false, 1005777327678, Ok((95785053774968, 52, 1831510549876, 64, 1005777327678, 1005))),
        ((879547, 9, 615662, 6, 150, 1399952475535702, 12, 18, 10000), false, 15128530010012320473, Err(MathError::InsufficientLiquidity)),
        ((945680146331, 0, 8384665932527101438, 12, 125, 714, 14, 0, 0), true, 588539596, Err(MathError::DivideByZero)),
        ((383311204810028, 9, 61111, 9, 125, 0, 8, 24, 1000000000), false, 311538940, Ok((23424531037145621108, 75174992713, 311600051, 383236029817315, 311538940, 7))),
        ((161, 6, 539504218913825, 15, 150, 864, 12, 0, 0), false, 6511922193407054409, Err(MathError::DivideByZero)),
        ((1285097994, 2, 114, 9, 0, 0, 12, 0, 0), true, 24071, Err(MathError::DivideByZero)),
        ((189321, 2, 115, 12, 0, 250, 2, 1, 1), false, 110, Ok((21771915, 189321, 225, 0, 110, 110))),
        ((409242072977, 18, 3020028073, 9, 150, 745335964, 2, 0, 1), true, 110, Ok((1235922549043254683321, 409242073087, 3020028073, 110, 0, 0))),
        ((9190427262574401958, 6, 330433063875, 9, 0, 1, 0, 10, 1000000000), true, 0, Ok((3036821038692788759127739067250, 9190427262574401958, 330433063875, 0, 0, 0))),
    ];
    for (settings, x_to_y, amount_in, expected) in rows {
        let direction = if x_to_y { Direction::XToY } else { Direction::YToX };
        let result = pool(settings).swap(direction, amount_in);
        assert_eq!(result, expected.map(record), "{:?} {:?} {}", settings, direction, amount_in);
    }
}
