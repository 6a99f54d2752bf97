use hydra_math::root::sqrt_of_product;

#[test]
fn sqrt_of_product_is_the_floor_root() {
    let rows: Vec<(u128, u128, u128)> = vec![
        (3929248983, 159384202180985255908579413992101601485, 791366043197395915860528),
        (572117272415175506875845645, 1139150342152482335965805575, 807296467614650301333536634),
        (1391489666, 207721763062720682749156215008460394176, 537626902884403971946092),
        (43511739, 24187133157712111572246115442075325987, 32441088531623214259139),
        (284796047644335408286706625092295478450, 1, 16875901387609949182),
        (10510118825980422702104046, 137484419347054394672526998842533023932, 38012860771829097467804249300783),
        (657792520592219018363376809, 3030412664, 1411872085100892308),
        (390004938, 7, 52249),
        (8230550433955878283309830874916844856, 1, 2868893590559935404),
        (574117582, 188, 328533),
        (907359265054526583721664814, 25276392638888260962576237851291560924, 151442296100037053761816872280199),
        (5407794622763378216, 75811971498437465888646478705874406798, 20247853511183367334833374139),
        (287333040415358423790260614204836298733, 981771054548007781900894538, 531126408772028374703951532412442),
        (15064094008114092428, 1, 3881249026),
        (8770133582126765040, 2122342165, 136430290969528),
        (726722461447585973079572742, 15980031890093196804, 107763853444369033588035),
        (0, 184, 0),
        (17380914645929402203, 89100704910701429585033782564370961372, 39352912813984230996164660708),
        (1051977086981300832623618055, 94302558962838280492359320282405195779, 314966873294016391914219189063573),
        (64666595577516568367313866936166993804, 7119392058268087979, 21456627111216844678002478804),
        (182, 226, 202),
        (3177087970579061440, 2953450076, 96867800161691),
        (53034493927856846459160967658299534388, 99104859506959593361252814412350017989, 72498110801199188326328755459170123346),
        (235773638079044319982914119718283042303, 593556881807490118108333662, 374092322068503914502167602326683),
        (108693008008538408392947310833100145275, 1, 10425593892365960002),
        (32229984760492652116933597929113470005, 1, 5677145828714694212),
        (16220767332054954843, 0, 0),
        (90544825622782693741995914484410232368, 11830624517016437060, 32729219879212993870451384193),
        (45, 30, 36),
        (318299185676358602968074370, 2521285020, 895836463158316364),
        (340282366920938463463374607431768211455, 340282366920938463463374607431768211455, 340282366920938463463374607431768211455),
        (340282366920938463463374607431768211455, 340282366920938463463374607431768211454, 340282366920938463463374607431768211454),
        (340282366920938463463374607431768211455, 1, 18446744073709551615),
        (1, 1, 1),
        (0, 340282366920938463463374607431768211455, 0),
        (2, 1, 1),
        (3, 1, 1),
        (4, 1, 2),
        (15, 1, 3),
        (16, 1, 4),
        (17, 1, 4),
        (340282366920938463463374607431768211454, 340282366920938463463374607431768211454, 340282366920938463463374607431768211454),
    ];
    for (a, b, root) in rows {
        assert_eq!(sqrt_of_product(a, b), root, "sqrt({} * {})", a, b);
    }
}

#[test]
fn sqrt_of_product_around_squares() {
    for r in [1u128, 2, 3, 10, 255, 256, 65_535, 1_000_000_007, 1 << 40, (1 << 64) - 1] {
        let square: u128 = r * r;
        assert_eq!(sqrt_of_product(square, 1), r);
        assert_eq!(sqrt_of_product(square - 1, 1), r - 1);
        assert_eq!(sqrt_of_product(square + 1, 1), r);
        assert_eq!(sqrt_of_product(square + 2 * r, 1), r);
    }
}

#[test]
fn sqrt_of_product_never_decreases() {
    let mut last: u128 = 0;
    for n in 0..5_000u128 {
        let root = sqrt_of_product(n, 1);
        assert!(root >= last);
        assert!(root * root <= n && n < (root + 1) * (root + 1));
        last = root;
    }
}
