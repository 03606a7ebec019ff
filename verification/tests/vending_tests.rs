use steps::Coin;
use steps::Money;
use steps::Product;
use steps::ProductKindAndQuantity;
use steps::VMSweets;
use steps::VendingError;
use steps::VendingMachine;

#[test]
fn test_load_product() {
    let mut vms = VMSweets::new("EatAndGo", 100);
    let twix = &Product::new("Twix", 25);

    let block_of_twix = ProductKindAndQuantity::new(twix.clone(), 50);
    let second_block_of_twix = ProductKindAndQuantity::new(twix.clone(), 15);

    let _ = vms.load_product(block_of_twix);
    let _ = vms.load_product(second_block_of_twix);

    // check getter of total capacity
    let total_capacity = vms.get_product_capacity();
    assert_eq!(total_capacity, 100);

    assert_eq!(twix.name, "Twix");

    // we should have only one kind of products in our machine - Twix
    assert_eq!(vms.get_loaded_products().len(), 1);

    // since we loaded two blocks of Twix, total amount of items should be 65 (50 in first block and 15 in second)
    assert_eq!(vms.get_amount_of_loaded_products(), 65);
}

#[test]
fn test_load_change_supply() {
    let mut vms = VMSweets::new("EatAndGo", 100);

    let _ = vms.load_change_supply(Coin::One, 34);
    let _ = vms.load_change_supply(Coin::One, 6);

    let _ = vms.load_change_supply(Coin::Ten, 22);
    let _ = vms.load_change_supply(Coin::Ten, 8);

    let change_supply = vms.get_change_supply();

    assert_eq!(change_supply.get(Coin::One), Some(40));
    assert_eq!(change_supply.get(Coin::Ten), Some(30));
}

#[test]
// Customer is trying to buy Snickers, but it's out of stock
fn test_run_out_of_product() {
    let mut vms = VMSweets::new("EatAndGo", 100);
    let twix = &Product::new("Twix", 25);
    let snickers = &Product::new("Snickers", 30);
    let block_of_twix = ProductKindAndQuantity::new(twix.clone(), 50);
    let empty_block_of_snickers = ProductKindAndQuantity::new(snickers.clone(), 0);
    let _ = vms.load_product(block_of_twix);
    let _ = vms.load_product(empty_block_of_snickers);

    // 2 coins (Twenty and Ten) customer is entering into the VM
    let money: &mut Money = &mut Money::new();
    money.coins.insert(Coin::Twenty, 1);
    money.coins.insert(Coin::Ten, 1);

    let res = vms.sell_product(snickers, money);
    assert_eq!(
        res,
        Err(VendingError::RunOutOfProduct(
            "Product 'Snickers' is out of stock".to_string()
        ))
    );
}

#[test]
// if customer entered exactly required amount of money
fn test_sell_product_exact_amount() {
    // price of Twix - 25. Customer will give 20 and 5 in two coins.
    let mut vms = VMSweets::new("EatAndGo", 100);
    let twix = &Product::new("Twix", 25);
    let block_of_twix = ProductKindAndQuantity::new(twix.clone(), 50);
    let _ = vms.load_product(block_of_twix);

    // 2 coins (Twenty and Five) customer is entering into the VM
    let money: &mut Money = &mut Money::new();
    money.coins.insert(Coin::Twenty, 1);
    money.coins.insert(Coin::Five, 1);

    let res = vms.sell_product(twix, money);
    assert_eq!(res, Ok(()));

    // check if we now have only 49 Twixes in the VM after the purchase
    let total_products = vms.get_amount_of_loaded_products();
    assert_eq!(total_products, 49);
}

#[test]
fn test_cancell_sell_product_due_to_no_change() {
    // price of Twix - 25. Customer will give 50 in one coin.
    // change supply in vending machine only 10 Ones, so purchase should be refused due to lack of change
    let mut vms = VMSweets::new("EatAndGo", 100);
    let twix = &Product::new("Twix", 25);
    let block_of_twix = ProductKindAndQuantity::new(twix.clone(), 50);
    let _ = vms.load_product(block_of_twix);

    let _ = vms.load_change_supply(Coin::One, 10);

    let money: &mut Money = &mut Money::new();
    money.coins.insert(Coin::Fifty, 1);

    let res = vms.sell_product(twix, money);
    println!("{:?}", res);
    assert_eq!(res, Err(VendingError::NotEnoughChange));

    // amount of Twixes is the same - 50
    assert_eq!(vms.get_amount_of_loaded_products(), 50);
}

#[test]
// sell product and give change
fn test_sell_product_give_change() {
    // price of Twix - 25. Customer will give 50.
    let mut vms = VMSweets::new("EatAndGo", 100);
    let twix = &Product::new("Twix", 25);
    // load 50 Twixes in the VM
    let block_of_twix = ProductKindAndQuantity::new(twix.clone(), 50);
    let _ = vms.load_product(block_of_twix);

    // load change supply into the VM
    let _ = vms.load_change_supply(Coin::One, 10);
    let _ = vms.load_change_supply(Coin::Two, 10);
    let _ = vms.load_change_supply(Coin::Five, 10);
    let _ = vms.load_change_supply(Coin::Ten, 10);
    let _ = vms.load_change_supply(Coin::Twenty, 10);

    let initial_change_supply = vms.calc_change_supply_amount();

    // customer is entering into the VM one coin - 50
    let money: &mut Money = &mut Money::new();
    money.coins.insert(Coin::Fifty, 1);

    let res = vms.sell_product(twix, money);
    assert_eq!(res, Ok(()));

    // check updated change_supply in the VM (it should be 25 more)
    let new_change_supply = vms.calc_change_supply_amount();
    assert_eq!(new_change_supply - initial_change_supply, 25);

    // check if we now have only 49 Twixes in the VM after the purchase
    let total_products = vms.get_amount_of_loaded_products();
    assert_eq!(total_products, 49);
}

#[test]
fn not_enough_money_is_rejected() {
    let mut vms = VMSweets::new("EatAndGo", 100);
    let twix = &Product::new("Twix", 25);
    let _ = vms.load_product(ProductKindAndQuantity::new(twix.clone(), 50));

    let money: &mut Money = &mut Money::new();
    money.coins.insert(Coin::Ten, 2);

    let res = vms.sell_product(twix, money);
    assert_eq!(res, Err(VendingError::NotEnoughMoney));
    assert_eq!(vms.get_amount_of_loaded_products(), 50);
}

#[test]
fn load_beyond_capacity_is_rejected() {
    let mut vms = VMSweets::new("EatAndGo", 60);
    let twix = &Product::new("Twix", 25);
    let _ = vms.load_product(ProductKindAndQuantity::new(twix.clone(), 50));

    let res = vms.load_product(ProductKindAndQuantity::new(twix.clone(), 11));
    assert_eq!(res, Err(VendingError::NotEnoughCapacity));
    assert_eq!(vms.get_amount_of_loaded_products(), 50);
}

#[test]
fn give_change_reports_missing_coins() {
    let mut vms = VMSweets::new("EatAndGo", 100);
    let _ = vms.load_change_supply(Coin::Fifty, 1);

    let res = vms.give_change(&30);
    assert_eq!(
        res,
        Err(VendingError::ChangeSupplyIsNotEnough(
            "Not enough coins to give exact change".to_string()
        ))
    );
    assert_eq!(vms.calc_change_supply_amount(), 50);
}

#[test]
fn give_change_uses_largest_coins_first() {
    let mut vms = VMSweets::new("EatAndGo", 100);
    let _ = vms.load_change_supply(Coin::Fifty, 1);
    let _ = vms.load_change_supply(Coin::Twenty, 2);
    let _ = vms.load_change_supply(Coin::Five, 1);
    let _ = vms.load_change_supply(Coin::Two, 2);

    assert_eq!(vms.give_change(&47), Ok(()));

    let till = vms.get_change_supply();
    assert_eq!(till.get(Coin::Fifty), Some(1));
    assert_eq!(till.get(Coin::Twenty), Some(0));
    assert_eq!(till.get(Coin::Five), Some(0));
    assert_eq!(till.get(Coin::Two), Some(1));
}

#[test]
fn coin_values_are_their_names() {
    assert_eq!(Coin::One.value(), 1);
    assert_eq!(Coin::Two.value(), 2);
    assert_eq!(Coin::Five.value(), 5);
    assert_eq!(Coin::Ten.value(), 10);
    assert_eq!(Coin::Twenty.value(), 20);
    assert_eq!(Coin::Fifty.value(), 50);
}

#[test]
fn money_amount_weighs_denominations() {
    let mut money = Money::new();
    assert_eq!(money.calc_amount(), 0);
    money.coins.insert(Coin::Two, 3);
    money.coins.insert(Coin::Twenty, 2);
    assert_eq!(money.calc_amount(), 2 * 3 + 20 * 2);
}

#[test]
fn money_back_reports_the_amount() {
    let mut money = Money::new();
    money.coins.insert(Coin::Five, 2);
    assert_eq!(VMSweets::money_back(&money), 10);
}
